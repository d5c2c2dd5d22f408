//! The sizes of the drag-and-drop playground: its container, its boxes and
//! the immovable object, and where a new box may be put.

use vstd::prelude::*;

verus! {

/// The size of the playground, in pixels.
#[derive(Clone, Copy, Debug, PartialEq, Eq, Structural)]
pub struct ContainerSize {
    pub height: u32,
    pub width: u32,
}

/// The size of a draggable box, in pixels.
#[derive(Clone, Copy, Debug, PartialEq, Eq, Structural)]
pub struct BoxSettings {
    pub height: u32,
    pub width: u32,
}

/// The size of the immovable object, in pixels.
#[derive(Clone, Copy, Debug, PartialEq, Eq, Structural)]
pub struct ImmovableObjectSettings {
    pub width: u16,
    pub height: u16,
}

impl ImmovableObjectSettings {
    pub fn new(width: u16, height: u16) -> (r: Self)
        ensures
            r.width == width,
            r.height == height,
    {
        Self { width, height }
    }
}

/// The largest top-left corner at which a box still fits in the container,
/// per axis; zero where the box is larger than the container.
pub fn position_limits(container_size: &ContainerSize, box_settings: &BoxSettings) -> (r: (u32, u32))
    ensures
        r.0 == (if container_size.width >= box_settings.width {
            container_size.width - box_settings.width
        } else {
            0
        }),
        r.1 == (if container_size.height >= box_settings.height {
            container_size.height - box_settings.height
        } else {
            0
        }),
{
    let max_x = container_size.width.saturating_sub(box_settings.width);
    let max_y = container_size.height.saturating_sub(box_settings.height);
    (max_x, max_y)
}

/// `ids` with every copy of `id` taken out, the rest in their order.
pub open spec fn without(ids: Seq<u32>, id: u32) -> Seq<u32>
    decreases ids.len(),
{
    if ids.len() == 0 {
        ids
    } else if ids.last() == id {
        without(ids.drop_last(), id)
    } else {
        without(ids.drop_last(), id).push(ids.last())
    }
}

/// A box starts being dragged: its id joins the actively moving boxes.
pub fn start_dragging(box_ids: &mut Vec<u32>, id: u32)
    ensures
        final(box_ids)@ == old(box_ids)@.push(id),
{
    box_ids.push(id);
}

/// A box is let go: every copy of its id leaves the actively moving boxes,
/// and the other ids keep their order.
pub fn stop_dragging(box_ids: &mut Vec<u32>, id: u32)
    ensures
        final(box_ids)@ == without(old(box_ids)@, id),
{
    let mut kept: Vec<u32> = Vec::new();
    let mut i: usize = 0;
    while i < box_ids.len()
        invariant
            i <= box_ids.len(),
            box_ids@ == old(box_ids)@,
            kept@ == without(box_ids@.take(i as int), id),
        decreases box_ids.len() - i,
    {
        assert(box_ids@.take(i + 1).drop_last() =~= box_ids@.take(i as int));
        if box_ids[i] != id {
            kept.push(box_ids[i]);
        }
        i = i + 1;
    }
    assert(box_ids@.take(box_ids.len() as int) =~= box_ids@);
    *box_ids = kept;
}

/// Letting go of a box leaves none of its id behind, keeps every other id,
/// and never adds one.
pub proof fn lemma_without(ids: Seq<u32>, id: u32)
    ensures
        !without(ids, id).contains(id),
        without(ids, id).len() <= ids.len(),
        forall|x: u32| x != id ==> (without(ids, id).contains(x) <==> ids.contains(x)),
    decreases ids.len(),
{
    if ids.len() > 0 {
        lemma_without(ids.drop_last(), id);
        let rest = without(ids.drop_last(), id);
        assert forall|x: u32| x != id implies (without(ids, id).contains(x) <==> ids.contains(x)) by {
            if ids.contains(x) {
                let k = choose|k: int| 0 <= k < ids.len() && ids[k] == x;
                if k < ids.len() - 1 {
                    assert(ids.drop_last()[k] == x);
                }
            }
            if ids.drop_last().contains(x) {
                let k = choose|k: int| 0 <= k < ids.drop_last().len() && ids.drop_last()[k] == x;
                assert(ids[k] == x);
            }
            if ids.last() != id {
                if rest.contains(x) {
                    let k = choose|k: int| 0 <= k < rest.len() && rest[k] == x;
                    assert(rest.push(ids.last())[k] == x);
                }
                if x == ids.last() {
                    assert(rest.push(ids.last())[rest.len() as int] == x);
                }
                if rest.push(ids.last()).contains(x) && x != ids.last() {
                    let k = choose|k: int| 0 <= k < rest.len() + 1 && rest.push(ids.last())[k] == x;
                    assert(rest[k] == x);
                }
            }
        }
        if ids.last() != id && rest.push(ids.last()).contains(id) {
            let k = choose|k: int| 0 <= k < rest.len() + 1 && rest.push(ids.last())[k] == id;
            assert(rest[k] == id);
        }
    }
}

} // verus!
