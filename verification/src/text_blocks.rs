//! Reordering the text blocks of a page by drag and drop.

use vstd::prelude::*;

verus! {

/// `list` with the entry at `old_index` taken out and put back in at
/// `new_index`.
pub open spec fn moved<T>(list: Seq<T>, old_index: int, new_index: int) -> Seq<T> {
    list.remove(old_index).insert(new_index, list[old_index])
}

/// Moves the block at `old_index` to `new_index`: it is taken out, and the
/// remaining blocks close the gap before it is put back in. Both indices must
/// name a block (taking out or putting back past the end panics).
pub fn move_block<T>(list: &mut Vec<T>, old_index: usize, new_index: usize)
    requires
        old_index < old(list)@.len(),
        new_index < old(list)@.len(),
    ensures
        final(list)@ == moved(old(list)@, old_index as int, new_index as int),
{
    let item = list.remove(old_index);
    list.insert(new_index, item);
}

/// Moving a block and then moving it back from where it landed restores the
/// order; a move keeps every block, only in another place.
pub proof fn lemma_move_back_restores<T>(list: Seq<T>, old_index: int, new_index: int)
    requires
        0 <= old_index < list.len(),
        0 <= new_index < list.len(),
    ensures
        moved(list, old_index, new_index).len() == list.len(),
        moved(list, old_index, new_index)[new_index] == list[old_index],
        moved(moved(list, old_index, new_index), new_index, old_index) == list,
{
    let m = moved(list, old_index, new_index);
    assert(m[new_index] == list[old_index]);
    assert(m.remove(new_index) =~= list.remove(old_index));
    assert(list.remove(old_index).insert(old_index, list[old_index]) =~= list);
}

} // verus!
