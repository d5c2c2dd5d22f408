//! Merging a list of diffs: runs of inserts (or of deletes) that continue one
//! another are folded into one insert (or delete).

use vstd::prelude::*;

use crate::chars::{chars_of, string_of};
use crate::diff_logic::{apply_diff, DiffResult, DiffView};

verus! {

/// Whether `b` may be folded into `a`: both inserts, `b` free of spaces and
/// newlines, or both deletes; and `b` starts where `a` ends.
pub open spec fn combinable(a: DiffView, b: DiffView) -> bool {
    match (a, b) {
        (DiffView::Insert(a_text, a_pos), DiffView::Insert(b_text, b_pos)) => {
            !b_text.contains(' ') && !b_text.contains('\n') && a_pos + a_text.len() == b_pos
        },
        (DiffView::Delete(a_text, a_pos), DiffView::Delete(_b_text, b_pos)) => {
            a_pos + a_text.len() == b_pos
        },
        _ => false,
    }
}

/// `a` with `b` folded in: the texts are concatenated, `a`'s position stays.
pub open spec fn merged(a: DiffView, b: DiffView) -> DiffView {
    match (a, b) {
        (DiffView::Insert(a_text, a_pos), DiffView::Insert(b_text, _)) => DiffView::Insert(
            a_text + b_text,
            a_pos,
        ),
        (DiffView::Delete(a_text, a_pos), DiffView::Delete(b_text, _)) => DiffView::Delete(
            a_text + b_text,
            a_pos,
        ),
        _ => a,
    }
}

/// Folds `list[j..]` into `item` for as long as the next entry is combinable;
/// gives the folded item and the index of the first entry not folded in.
pub open spec fn fold_run(list: Seq<DiffView>, item: DiffView, j: int) -> (DiffView, int)
    decreases list.len() - j,
{
    if 0 <= j && j < list.len() && combinable(item, list[j]) {
        fold_run(list, merged(item, list[j]), j + 1)
    } else {
        (item, j)
    }
}

pub proof fn lemma_fold_run_advances(list: Seq<DiffView>, item: DiffView, j: int)
    requires
        0 <= j,
    ensures
        j <= fold_run(list, item, j).1,
        j <= list.len() ==> fold_run(list, item, j).1 <= list.len(),
    decreases list.len() - j,
{
    if 0 <= j && j < list.len() && combinable(item, list[j]) {
        lemma_fold_run_advances(list, merged(item, list[j]), j + 1);
    }
}

/// The combined list for `list[i..]`.
pub open spec fn combine_from(list: Seq<DiffView>, i: int) -> Seq<DiffView>
    decreases list.len() - i,
{
    if 0 <= i && i < list.len() {
        let run = fold_run(list, list[i], i + 1);
        proof {
            lemma_fold_run_advances(list, list[i], i + 1);
        }
        seq![run.0] + combine_from(list, run.1)
    } else {
        seq![]
    }
}

/// What `combine_getdiff_results` returns for `list`.
pub open spec fn combine_spec(list: Seq<DiffView>) -> Seq<DiffView> {
    combine_from(list, 0)
}

/// No entry of `list` can be folded into the entry before it.
pub open spec fn no_foldable_neighbours(list: Seq<DiffView>) -> bool {
    forall|k: int| 0 <= k < list.len() - 1 ==> !combinable(#[trigger] list[k], list[k + 1])
}

proof fn lemma_fold_run_stops(list: Seq<DiffView>, item: DiffView, j: int)
    requires
        0 <= j,
    ensures
        ({
            let run = fold_run(list, item, j);
            run.1 < list.len() ==> !combinable(run.0, list[run.1])
        }),
    decreases list.len() - j,
{
    if 0 <= j && j < list.len() && combinable(item, list[j]) {
        lemma_fold_run_stops(list, merged(item, list[j]), j + 1);
    }
}

/// Growing an entry by folding never makes it foldable into a predecessor
/// it could not be folded into before.
proof fn lemma_fold_run_keeps_unfoldable(list: Seq<DiffView>, x: DiffView, item: DiffView, j: int)
    requires
        !combinable(x, item),
    ensures
        !combinable(x, fold_run(list, item, j).0),
    decreases list.len() - j,
{
    if 0 <= j && j < list.len() && combinable(item, list[j]) {
        let m = merged(item, list[j]);
        assert(!combinable(x, m)) by {
            match (item, list[j]) {
                (DiffView::Insert(t1, p1), DiffView::Insert(t2, p2)) => {
                    if !t1.contains(' ') && !t1.contains('\n') {
                        assert((t1 + t2).len() == t1.len() + t2.len());
                    } else if t1.contains(' ') {
                        let k = choose|k: int| 0 <= k < t1.len() && t1[k] == ' ';
                        assert((t1 + t2)[k] == ' ');
                    } else {
                        let k = choose|k: int| 0 <= k < t1.len() && t1[k] == '\n';
                        assert((t1 + t2)[k] == '\n');
                    }
                },
                _ => {},
            }
        }
        lemma_fold_run_keeps_unfoldable(list, x, m, j + 1);
    }
}

proof fn lemma_combine_from_no_foldable(list: Seq<DiffView>, i: int)
    requires
        0 <= i,
    ensures
        no_foldable_neighbours(combine_from(list, i)),
        combine_from(list, i).len() <= list.len() - i || i >= list.len(),
        combine_from(list, i).len() > 0 ==> i < list.len() && combine_from(list, i)[0]
            == fold_run(list, list[i], i + 1).0,
    decreases list.len() - i,
{
    if i < list.len() {
        let run = fold_run(list, list[i], i + 1);
        lemma_fold_run_advances(list, list[i], i + 1);
        lemma_fold_run_stops(list, list[i], i + 1);
        lemma_combine_from_no_foldable(list, run.1);
        let rest = combine_from(list, run.1);
        let r = combine_from(list, i);
        assert(r == seq![run.0] + rest);
        if rest.len() > 0 {
            lemma_fold_run_keeps_unfoldable(list, run.0, list[run.1], run.1 + 1);
        }
        assert forall|k: int| 0 <= k < r.len() - 1 implies !combinable(#[trigger] r[k], r[k + 1]) by {
            if k > 0 {
                assert(r[k] == rest[k - 1] && r[k + 1] == rest[k]);
            }
        }
    }
}

proof fn lemma_combine_from_fixed(list: Seq<DiffView>, i: int)
    requires
        0 <= i <= list.len(),
        no_foldable_neighbours(list),
    ensures
        combine_from(list, i) == list.skip(i),
    decreases list.len() - i,
{
    if i < list.len() {
        if i + 1 < list.len() {
            assert(!combinable(list[i], list[i + 1]));
        }
        assert(fold_run(list, list[i], i + 1) == (list[i], i + 1));
        lemma_combine_from_fixed(list, i + 1);
        assert(seq![list[i]] + list.skip(i + 1) =~= list.skip(i));
    } else {
        assert(list.skip(i) =~= Seq::<DiffView>::empty());
    }
}

/// Combining never lengthens the list, leaves no entry that could be folded
/// into its predecessor, and so combining a second time changes nothing.
pub proof fn lemma_combine_idempotent(list: Seq<DiffView>)
    ensures
        combine_spec(list).len() <= list.len(),
        no_foldable_neighbours(combine_spec(list)),
        combine_spec(combine_spec(list)) == combine_spec(list),
{
    lemma_combine_from_no_foldable(list, 0);
    let r = combine_spec(list);
    lemma_combine_from_fixed(r, 0);
    assert(r.skip(0) =~= r);
}

/// Whether a diff can be applied to `text`: its position, and for a delete
/// or replace the span it removes, lie within the text.
pub open spec fn fits(text: Seq<char>, d: DiffView) -> bool {
    match d {
        DiffView::Insert(_, pos) => 0 <= pos <= text.len(),
        DiffView::Delete(t, pos) => 0 <= pos && pos + t.len() <= text.len(),
        DiffView::Replace { old_text, position, .. } => 0 <= position && position
            + old_text.len() <= text.len(),
        DiffView::NoDiff => true,
    }
}

/// The text after applying the diffs of `list` one after another.
pub open spec fn apply_all(text: Seq<char>, list: Seq<DiffView>) -> Seq<char>
    decreases list.len(),
{
    if list.len() == 0 {
        text
    } else {
        apply_all(apply_diff(text, list[0]), list.drop_first())
    }
}

/// Whether each diff of `list` fits the text that the ones before it leave.
pub open spec fn all_fit(text: Seq<char>, list: Seq<DiffView>) -> bool
    decreases list.len(),
{
    if list.len() == 0 {
        true
    } else {
        fits(text, list[0]) && all_fit(apply_diff(text, list[0]), list.drop_first())
    }
}

/// No delete in `list` is followed by a delete that would be folded into it.
pub open spec fn no_delete_folds(list: Seq<DiffView>) -> bool {
    forall|k: int|
        0 <= k < list.len() - 1 && (#[trigger] list[k]) is Delete ==> !combinable(list[k], list[k + 1])
}

/// Two inserts, the second where the first one ends, do what the one merged
/// insert does.
proof fn lemma_two_inserts(text: Seq<char>, a: DiffView, b: DiffView)
    requires
        a is Insert,
        combinable(a, b),
        fits(text, a),
    ensures
        apply_diff(apply_diff(text, a), b) == apply_diff(text, merged(a, b)),
        fits(text, merged(a, b)),
        merged(a, b) is Insert,
{
    match (a, b) {
        (DiffView::Insert(at, ap), DiffView::Insert(bt, bp)) => {
            let t1 = text.take(ap) + at + text.skip(ap);
            assert(t1.take(bp) =~= text.take(ap) + at);
            assert(t1.skip(bp) =~= text.skip(ap));
            assert(t1.take(bp) + bt + t1.skip(bp) =~= text.take(ap) + (at + bt) + text.skip(ap));
        },
        _ => {},
    }
}

proof fn lemma_fold_run_effect(list: Seq<DiffView>, item: DiffView, j: int, text: Seq<char>)
    requires
        0 <= j <= list.len(),
        fits(text, item),
        all_fit(apply_diff(text, item), list.skip(j)),
        item is Delete ==> !(j < list.len() && combinable(item, list[j])),
    ensures
        ({
            let run = fold_run(list, item, j);
            &&& j <= run.1 <= list.len()
            &&& fits(text, run.0)
            &&& all_fit(apply_diff(text, run.0), list.skip(run.1))
            &&& apply_all(apply_diff(text, run.0), list.skip(run.1)) == apply_all(
                apply_diff(text, item),
                list.skip(j),
            )
        }),
    decreases list.len() - j,
{
    if j < list.len() && combinable(item, list[j]) {
        assert(item is Insert) by {
            match (item, list[j]) {
                (DiffView::Insert(_, _), DiffView::Insert(_, _)) => {},
                (DiffView::Delete(_, _), DiffView::Delete(_, _)) => {},
                _ => {},
            }
        }
        let m = merged(item, list[j]);
        lemma_two_inserts(text, item, list[j]);
        let rest = list.skip(j);
        assert(rest[0] == list[j]);
        assert(rest.drop_first() =~= list.skip(j + 1));
        lemma_fold_run_effect(list, m, j + 1, text);
    }
}

proof fn lemma_combine_from_effect(list: Seq<DiffView>, i: int, text: Seq<char>)
    requires
        0 <= i <= list.len(),
        all_fit(text, list.skip(i)),
        no_delete_folds(list),
    ensures
        apply_all(text, combine_from(list, i)) == apply_all(text, list.skip(i)),
    decreases list.len() - i,
{
    if i < list.len() {
        let rest = list.skip(i);
        assert(rest[0] == list[i]);
        assert(rest.drop_first() =~= list.skip(i + 1));
        if list[i] is Delete && i + 1 < list.len() {
            assert(!combinable(list[i], list[i + 1]));
        }
        lemma_fold_run_effect(list, list[i], i + 1, text);
        let run = fold_run(list, list[i], i + 1);
        let c = combine_from(list, i);
        assert(c == seq![run.0] + combine_from(list, run.1));
        assert(c[0] == run.0);
        assert(c.drop_first() =~= combine_from(list, run.1));
        lemma_combine_from_effect(list, run.1, apply_diff(text, run.0));
    } else {
        assert(list.skip(i) =~= Seq::<DiffView>::empty());
    }
}

/// Combining keeps what the edits do: applying the combined list to a text
/// gives the same text as applying the original list in order, whenever each
/// diff fits the text it is applied to. (The fold of a delete into the delete
/// before it does not keep this, so the law leaves out lists where that
/// happens.) In particular two inserts are folded only when the second
/// starts exactly where the first ends.
pub proof fn lemma_combine_keeps_effect(list: Seq<DiffView>, text: Seq<char>)
    requires
        all_fit(text, list),
        no_delete_folds(list),
    ensures
        apply_all(text, combine_spec(list)) == apply_all(text, list),
{
    assert(list.skip(0) =~= list);
    lemma_combine_from_effect(list, 0, text);
}

/// Two deletes are folded when the second's span starts where the first's
/// ends, both counted in the same text: the folded delete removes the two
/// adjacent spans at once, from the first one's start to the second one's
/// end.
pub proof fn lemma_delete_fold_spans(x: DiffView, y: DiffView, text: Seq<char>)
    requires
        x is Delete,
        combinable(x, y),
        fits(text, merged(x, y)),
    ensures
        match (x, y) {
            (DiffView::Delete(a, p), DiffView::Delete(b, q)) => {
                &&& q == p + a.len()
                &&& merged(x, y) == DiffView::Delete(a + b, p)
                &&& apply_diff(text, merged(x, y)) == text.take(p) + text.skip(q + b.len())
            },
            _ => false,
        },
{
    match (x, y) {
        (DiffView::Delete(a, p), DiffView::Delete(b, q)) => {},
        (DiffView::Delete(a, p), _) => {},
        _ => {},
    }
}

/// Whether a diff is an insert or a delete, the two kinds that are folded.
pub open spec fn is_edit(d: DiffView) -> bool {
    d is Insert || d is Delete
}

/// The entries of `list` that are neither inserts nor deletes, in order.
pub open spec fn others(list: Seq<DiffView>) -> Seq<DiffView>
    decreases list.len(),
{
    if list.len() == 0 {
        seq![]
    } else if is_edit(list[0]) {
        others(list.drop_first())
    } else {
        seq![list[0]] + others(list.drop_first())
    }
}

proof fn lemma_fold_run_kinds(list: Seq<DiffView>, item: DiffView, j: int)
    requires
        0 <= j <= list.len(),
    ensures
        is_edit(item) ==> is_edit(fold_run(list, item, j).0) && others(list.skip(j)) == others(
            list.skip(fold_run(list, item, j).1),
        ),
        !is_edit(item) ==> fold_run(list, item, j) == (item, j),
    decreases list.len() - j,
{
    if j < list.len() && combinable(item, list[j]) {
        assert(is_edit(item) && is_edit(list[j]) && is_edit(merged(item, list[j]))) by {
            match (item, list[j]) {
                (DiffView::Insert(_, _), DiffView::Insert(_, _)) => {},
                (DiffView::Delete(_, _), DiffView::Delete(_, _)) => {},
                _ => {},
            }
        }
        let rest = list.skip(j);
        assert(rest[0] == list[j]);
        assert(rest.drop_first() =~= list.skip(j + 1));
        lemma_fold_run_kinds(list, merged(item, list[j]), j + 1);
    }
}

proof fn lemma_combine_from_others(list: Seq<DiffView>, i: int)
    requires
        0 <= i <= list.len(),
    ensures
        others(combine_from(list, i)) == others(list.skip(i)),
    decreases list.len() - i,
{
    if i < list.len() {
        let rest = list.skip(i);
        assert(rest[0] == list[i]);
        assert(rest.drop_first() =~= list.skip(i + 1));
        lemma_fold_run_kinds(list, list[i], i + 1);
        lemma_fold_run_advances(list, list[i], i + 1);
        let run = fold_run(list, list[i], i + 1);
        let c = combine_from(list, i);
        assert(c == seq![run.0] + combine_from(list, run.1));
        assert(c[0] == run.0);
        assert(c.drop_first() =~= combine_from(list, run.1));
        lemma_combine_from_others(list, run.1);
    } else {
        assert(list.skip(i) =~= Seq::<DiffView>::empty());
    }
}

/// Only inserts and deletes are folded: the replaces and the no-diffs of the
/// list come out of combining unchanged, all of them and in the same order.
pub proof fn lemma_combine_keeps_others(list: Seq<DiffView>)
    ensures
        others(combine_spec(list)) == others(list),
{
    assert(list.skip(0) =~= list);
    lemma_combine_from_others(list, 0);
}

/// The abstract values of a list of diffs.
pub open spec fn views(list: Seq<DiffResult>) -> Seq<DiffView> {
    list.map_values(|d: DiffResult| d@)
}

/// Whether `i` indexes into `list`.
pub fn item_ahead_in_bounds(i: usize, list: &[DiffResult]) -> (r: bool)
    ensures
        r == (i < list@.len()),
{
    i < list.len()
}

fn has_space_or_newline(s: &String) -> (r: bool)
    ensures
        r == (s@.contains(' ') || s@.contains('\n')),
{
    let v = chars_of(s.as_str());
    let mut i: usize = 0;
    while i < v.len()
        invariant
            v@ == s@,
            i <= v.len(),
            forall|k: int| 0 <= k < i ==> v@[k] != ' ' && v@[k] != '\n',
        decreases v.len() - i,
    {
        if v[i] == ' ' || v[i] == '\n' {
            assert(s@[i as int] == v@[i as int]);
            return true;
        }
        i = i + 1;
    }
    false
}

fn starts_where_ends(a_text: &String, a_pos: usize, b_pos: usize) -> (r: bool)
    ensures
        r == (a_pos + a_text@.len() == b_pos),
{
    let len = chars_of(a_text.as_str()).len();
    a_pos <= b_pos && b_pos - a_pos == len
}

/// Whether `b` continues `a` so that the two can be folded into one diff.
pub fn makes_sense_to_combine(a: &DiffResult, b: &DiffResult) -> (r: bool)
    ensures
        r == combinable(a@, b@),
{
    match (a, b) {
        (DiffResult::Insert(a_text, a_pos), DiffResult::Insert(b_text, b_pos)) => {
            if has_space_or_newline(b_text) {
                return false;
            }
            starts_where_ends(a_text, *a_pos, *b_pos)
        },
        (DiffResult::Delete(a_text, a_pos), DiffResult::Delete(_, b_pos)) => {
            starts_where_ends(a_text, *a_pos, *b_pos)
        },
        _ => false,
    }
}

fn concat(a: &String, b: &String) -> (r: String)
    ensures
        r@ == a@ + b@,
{
    let mut v = chars_of(a.as_str());
    let w = chars_of(b.as_str());
    let mut i: usize = 0;
    while i < w.len()
        invariant
            w@ == b@,
            i <= w.len(),
            v@ == a@ + w@.take(i as int),
        decreases w.len() - i,
    {
        v.push(w[i]);
        assert(a@ + w@.take(i as int) + seq![w@[i as int]] =~= a@ + w@.take(i + 1));
        i = i + 1;
    }
    assert(w@.take(w.len() as int) =~= w@);
    string_of(&v)
}

fn clone_diff(d: &DiffResult) -> (r: DiffResult)
    ensures
        r@ == d@,
{
    match d {
        DiffResult::Insert(t, p) => DiffResult::Insert(t.clone(), *p),
        DiffResult::Delete(t, p) => DiffResult::Delete(t.clone(), *p),
        DiffResult::Replace { old_text, new_text, position } => DiffResult::Replace {
            old_text: old_text.clone(),
            new_text: new_text.clone(),
            position: *position,
        },
        DiffResult::NoDiff => DiffResult::NoDiff,
    }
}

/// `a` with `b` folded in, for a pair that `makes_sense_to_combine`.
fn merge(a: &DiffResult, b: &DiffResult) -> (r: DiffResult)
    requires
        combinable(a@, b@),
    ensures
        r@ == merged(a@, b@),
{
    match (a, b) {
        (DiffResult::Insert(a_text, a_pos), DiffResult::Insert(b_text, _)) => {
            DiffResult::Insert(concat(a_text, b_text), *a_pos)
        },
        (DiffResult::Delete(a_text, a_pos), DiffResult::Delete(b_text, _)) => {
            DiffResult::Delete(concat(a_text, b_text), *a_pos)
        },
        _ => clone_diff(a),
    }
}

/// Walks the list from the front; each entry absorbs the entries after it for
/// as long as `makes_sense_to_combine` holds between the grown entry and the
/// next one. Entries that are not inserts or deletes pass through unchanged.
pub fn combine_getdiff_results(list: Vec<DiffResult>) -> (r: Vec<DiffResult>)
    ensures
        views(r@) == combine_spec(views(list@)),
{
    let ghost l = views(list@);
    let mut final_list: Vec<DiffResult> = Vec::new();
    let mut i: usize = 0;
    while i < list.len()
        invariant
            l == views(list@),
            i <= list.len(),
            views(final_list@) + combine_from(l, i as int) == combine_spec(l),
        decreases list.len() - i,
    {
        let mut item = clone_diff(&list[i]);
        let mut ctr: usize = 1;
        proof {
            lemma_fold_run_advances(l, l[i as int], i + 1);
        }
        loop
            invariant
                l == views(list@),
                i < list.len(),
                1 <= ctr,
                i + ctr <= list.len(),
                fold_run(l, item@, (i + ctr) as int) == fold_run(l, l[i as int], i + 1),
            ensures
                fold_run(l, l[i as int], i + 1) == (item@, (i + ctr) as int),
            decreases list.len() - (i + ctr),
        {
            if !item_ahead_in_bounds(i + ctr, list.as_slice()) {
                break;
            }
            assert(l[(i + ctr) as int] == list@[(i + ctr) as int]@);
            let possible_combine = makes_sense_to_combine(&item, &list[i + ctr]);
            if possible_combine {
                item = merge(&item, &list[i + ctr]);
                ctr = ctr + 1;
            } else {
                break;
            }
        }
        let ghost run = fold_run(l, l[i as int], i + 1);
        assert(run.0 == item@ && run.1 == i + ctr);
        assert(combine_from(l, i as int) == seq![run.0] + combine_from(l, run.1));
        final_list.push(item);
        assert(views(final_list@) =~= views(final_list@.drop_last()) + seq![item@]);
        i = i + ctr;
    }
    final_list
}

} // verus!
