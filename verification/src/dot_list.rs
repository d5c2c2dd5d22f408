//! The list of floating background dots: a bounded list where a new dot
//! pushes out the oldest, and dots are found again by their id.

use vstd::prelude::*;

verus! {

/// `list` with `item` appended; when it already holds `cap` or more entries
/// (and so has an oldest one), the oldest one goes first.
pub open spec fn pushed_bounded<T>(list: Seq<T>, item: T, cap: nat) -> Seq<T> {
    if list.len() >= cap && list.len() > 0 {
        list.drop_first().push(item)
    } else {
        list.push(item)
    }
}

/// Appends `item`, first dropping the oldest entry if the list is full.
/// (With `cap` zero and an empty list there is no oldest entry to drop, and
/// `Vec::remove` would panic.)
pub fn push_bounded<T>(list: &mut Vec<T>, item: T, cap: usize)
    requires
        old(list)@.len() >= cap ==> old(list)@.len() > 0,
    ensures
        final(list)@ == pushed_bounded(old(list)@, item, cap as nat),
{
    if list.len() >= cap {
        list.remove(0);
    }
    list.push(item);
}

/// A list kept by `push_bounded` never grows past its cap.
pub proof fn lemma_push_bounded_stays_within_cap<T>(list: Seq<T>, item: T, cap: nat)
    requires
        0 < cap,
        list.len() <= cap,
    ensures
        pushed_bounded(list, item, cap).len() <= cap,
        pushed_bounded(list, item, cap).last() == item,
{
}

/// The index of the first entry of `ids` equal to `id`, if any.
pub fn first_index_of(ids: &Vec<u64>, id: u64) -> (r: Option<usize>)
    ensures
        match r {
            Some(i) => i < ids@.len() && ids@[i as int] == id && forall|k: int|
                0 <= k < i ==> ids@[k] != id,
            None => forall|k: int| 0 <= k < ids@.len() ==> ids@[k] != id,
        },
{
    let mut i: usize = 0;
    while i < ids.len()
        invariant
            i <= ids.len(),
            forall|k: int| 0 <= k < i ==> ids@[k] != id,
        decreases ids.len() - i,
    {
        if ids[i] == id {
            return Some(i);
        }
        i = i + 1;
    }
    None
}

/// Each id is larger than the one before it (so no id occurs twice).
pub open spec fn strictly_increasing(ids: Seq<u64>) -> bool {
    forall|i: int, j: int| 0 <= i < j < ids.len() ==> ids[i] < ids[j]
}

/// The bounded push acts on the dots' ids as it acts on the dots: the ids
/// of the new list are the old ids pushed the same way.
pub proof fn lemma_push_bounded_ids<T>(list: Seq<T>, item: T, cap: nat, id_of: spec_fn(T) -> u64)
    ensures
        pushed_bounded(list, item, cap).map_values(id_of) == pushed_bounded(
            list.map_values(id_of),
            id_of(item),
            cap,
        ),
{
    let ids = list.map_values(id_of);
    if list.len() >= cap && list.len() > 0 {
        assert(list.drop_first().push(item).map_values(id_of) =~= ids.drop_first().push(
            id_of(item),
        ));
    } else {
        assert(list.push(item).map_values(id_of) =~= ids.push(id_of(item)));
    }
}

/// New dots get ids larger than every id so far: pushing such an id keeps
/// the ids strictly increasing, whether or not the oldest dot makes way.
pub proof fn lemma_push_bounded_keeps_increasing(ids: Seq<u64>, id: u64, cap: nat)
    requires
        strictly_increasing(ids),
        ids.len() > 0 ==> ids.last() < id,
    ensures
        strictly_increasing(pushed_bounded(ids, id, cap)),
{
    let r = pushed_bounded(ids, id, cap);
    assert forall|i: int, j: int| 0 <= i < j < r.len() implies r[i] < r[j] by {
        if ids.len() >= cap && ids.len() > 0 {
            if j < r.len() - 1 {
                assert(r[i] == ids[i + 1] && r[j] == ids[j + 1]);
            } else {
                assert(r[i] == ids[i + 1]);
                if i + 1 < ids.len() - 1 {
                    assert(ids[i + 1] < ids[ids.len() - 1]);
                }
            }
        } else {
            if j == ids.len() {
                if i < ids.len() - 1 {
                    assert(ids[i] < ids[ids.len() - 1]);
                }
            }
        }
    }
}

/// Taking out a dot, at whatever index, keeps the ids strictly increasing.
pub proof fn lemma_remove_keeps_increasing(ids: Seq<u64>, i: int)
    requires
        strictly_increasing(ids),
        0 <= i < ids.len(),
    ensures
        strictly_increasing(ids.remove(i)),
{
    let r = ids.remove(i);
    assert forall|a: int, b: int| 0 <= a < b < r.len() implies r[a] < r[b] by {
        let a2 = if a < i { a } else { a + 1 };
        let b2 = if b < i { b } else { b + 1 };
        assert(r[a] == ids[a2] && r[b] == ids[b2]);
    }
}

/// In a strictly increasing list an id occurs at most once, so the entry
/// `first_index_of` finds is the only one with that id.
pub proof fn lemma_increasing_ids_are_distinct(ids: Seq<u64>, i: int, j: int)
    requires
        strictly_increasing(ids),
        0 <= i < ids.len(),
        0 <= j < ids.len(),
        ids[i] == ids[j],
    ensures
        i == j,
{
    if i < j {
        assert(ids[i] < ids[j]);
    } else if j < i {
        assert(ids[j] < ids[i]);
    }
}

} // verus!
