//! Choosing which trailing spaces to destroy, and in what order.
use vstd::prelude::*;

use crate::space::{is_active, models, Space, SpaceModel};

verus! {

/// Ceiling on the number of spaces kept in the pool.
pub const MAX_SPACES: u32 = 10;

/// The highest index among active spaces, or 1 when none is active.
pub open spec fn highest_active(spaces: Seq<SpaceModel>) -> int
    decreases spaces.len(),
{
    if spaces.len() == 0 {
        1
    } else {
        let rest = highest_active(spaces.drop_last());
        let s = spaces.last();
        if s.is_active() && s.index > rest {
            s.index as int
        } else {
            rest
        }
    }
}

/// The highest index that survives a reap: the highest active index,
/// clamped to the pool ceiling.
pub open spec fn keep_bound(spaces: Seq<SpaceModel>, max_spaces: u32) -> int {
    if highest_active(spaces) <= max_spaces {
        highest_active(spaces)
    } else {
        max_spaces as int
    }
}

/// Whether some space has the given index.
pub open spec fn has_index(spaces: Seq<SpaceModel>, x: u32) -> bool {
    exists|i: int| 0 <= i < spaces.len() && #[trigger] spaces[i].index == x
}

/// Whether a reap destroys the space at index `x`.
pub open spec fn in_destroy_set(spaces: Seq<SpaceModel>, max_spaces: u32, x: u32) -> bool {
    x > keep_bound(spaces, max_spaces) && has_index(spaces, x)
}

/// Each element is larger than every element after it.
pub open spec fn strictly_descending(s: Seq<u32>) -> bool {
    forall|i: int, j: int| 0 <= i < j < s.len() ==> s[i] > s[j]
}

/// `order` lists, highest first and each once, the indices of the spaces
/// that a reap destroys.
pub open spec fn is_destroy_order(order: Seq<u32>, spaces: Seq<SpaceModel>, max_spaces: u32) -> bool {
    &&& strictly_descending(order)
    &&& forall|x: u32| order.contains(x) <==> in_destroy_set(spaces, max_spaces, x)
}

/// The highest index that a reap keeps: the highest index among active
/// spaces (1 if none is active), but no more than `max_spaces`.
pub fn active_index(spaces: &Vec<Space>, max_spaces: u32) -> (r: u32)
    ensures
        r == keep_bound(models(spaces@), max_spaces),
{
    let ghost m = models(spaces@);
    let mut highest: u32 = 1;
    let mut i: usize = 0;
    while i < spaces.len()
        invariant
            i <= spaces.len(),
            m == models(spaces@),
            highest == highest_active(m.subrange(0, i as int)),
        decreases spaces.len() - i,
    {
        assert(m.subrange(0, i + 1).drop_last() =~= m.subrange(0, i as int));
        if is_active(&spaces[i]) && spaces[i].index > highest {
            highest = spaces[i].index;
        }
        i = i + 1;
    }
    assert(m.subrange(0, spaces.len() as int) =~= m);
    if highest <= max_spaces {
        highest
    } else {
        max_spaces
    }
}

/// The indices of the spaces a reap destroys, highest first.
///
/// Every space whose index is above `active_index(spaces, max_spaces)` is
/// listed once. Destroying from the top down means that no destroy
/// renumbers a space that is still to be destroyed.
pub fn destroy_order(spaces: &Vec<Space>, max_spaces: u32) -> (order: Vec<u32>)
    ensures
        is_destroy_order(order@, models(spaces@), max_spaces),
{
    let ghost m = models(spaces@);
    let bound = active_index(spaces, max_spaces);
    let mut order: Vec<u32> = Vec::new();
    // every index of the destroy set at or above `ceiling` is in `order`
    let mut ceiling: u64 = 0x1_0000_0000;
    loop
        invariant_except_break
            ceiling <= 0x1_0000_0000,
            order.len() > 0 ==> order[order.len() - 1] as u64 == ceiling,
        invariant
            m == models(spaces@),
            bound == keep_bound(m, max_spaces),
            strictly_descending(order@),
            forall|k: int|
                0 <= k < order.len() ==> (order[k] as u64) >= ceiling && in_destroy_set(
                    m,
                    max_spaces,
                    #[trigger] order[k],
                ),
            forall|x: u32|
                in_destroy_set(m, max_spaces, x) && (x as u64) >= ceiling ==> order@.contains(x),
        ensures
            forall|x: u32| in_destroy_set(m, max_spaces, x) ==> order@.contains(x),
        decreases ceiling,
    {
        // the largest index strictly between `bound` and `ceiling`
        let mut best: u32 = 0;
        let mut found = false;
        let mut i: usize = 0;
        while i < spaces.len()
            invariant
                i <= spaces.len(),
                m == models(spaces@),
                found ==> bound < best && (best as u64) < ceiling && has_index(m, best),
                forall|j: int|
                    0 <= j < i && bound < #[trigger] m[j].index && (m[j].index as u64) < ceiling
                        ==> found && m[j].index <= best,
            decreases spaces.len() - i,
        {
            let x = spaces[i].index;
            if x > bound && (x as u64) < ceiling && (!found || x > best) {
                best = x;
                found = true;
                assert(m[i as int].index == best);
            }
            i = i + 1;
        }
        if !found {
            assert forall|x: u32| in_destroy_set(m, max_spaces, x) implies order@.contains(x) by {
                if (x as u64) < ceiling {
                    let j = choose|j: int| 0 <= j < m.len() && #[trigger] m[j].index == x;
                    assert(bound < m[j].index);
                }
            }
            break;
        }
        proof {
            assert forall|k: int| 0 <= k < order.len() implies order@[k] > best by {
                if order.len() > 0 {
                    assert(order[k] >= order[order.len() - 1]);
                }
            }
        }
        let ghost old_order = order@;
        let ghost old_ceiling = ceiling;
        order.push(best);
        ceiling = best as u64;
        proof {
            assert(order@ == old_order.push(best));
            assert forall|x: u32|
                in_destroy_set(m, max_spaces, x) && (x as u64) >= ceiling implies order@.contains(
                x,
            ) by {
                if x == best {
                    assert(order@[order.len() - 1] == x);
                } else if (x as u64) >= old_ceiling {
                    let k = choose|k: int| 0 <= k < old_order.len() && old_order[k] == x;
                    assert(order@[k] == x);
                } else {
                    let j = choose|j: int| 0 <= j < m.len() && #[trigger] m[j].index == x;
                    assert(m[j].index <= best);
                }
            }
        }
    }
    order
}

/// The spaces after the window manager destroys the space at index `x`:
/// that space is gone and every space above it moves down by one.
pub open spec fn destroy_space(spaces: Seq<SpaceModel>, x: u32) -> Seq<SpaceModel>
    decreases spaces.len(),
{
    if spaces.len() == 0 {
        spaces
    } else {
        let rest = destroy_space(spaces.drop_last(), x);
        let s = spaces.last();
        if s.index == x {
            rest
        } else if s.index > x {
            rest.push(
                SpaceModel {
                    index: (s.index - 1) as u32,
                    display: s.display,
                    has_focus: s.has_focus,
                    is_visible: s.is_visible,
                    windows: s.windows,
                },
            )
        } else {
            rest.push(s)
        }
    }
}

/// The spaces after destroying the indices of `order`, first to last.
pub open spec fn destroy_all(spaces: Seq<SpaceModel>, order: Seq<u32>) -> Seq<SpaceModel>
    decreases order.len(),
{
    if order.len() == 0 {
        spaces
    } else {
        destroy_all(destroy_space(spaces, order[0]), order.drop_first())
    }
}

proof fn lemma_highest_active_at_least_one(spaces: Seq<SpaceModel>)
    ensures
        highest_active(spaces) >= 1,
    decreases spaces.len(),
{
    if spaces.len() > 0 {
        lemma_highest_active_at_least_one(spaces.drop_last());
    }
}

proof fn lemma_highest_active_bounds(spaces: Seq<SpaceModel>, t: SpaceModel)
    requires
        spaces.contains(t),
        t.is_active(),
    ensures
        highest_active(spaces) >= t.index,
    decreases spaces.len(),
{
    if t != spaces.last() {
        let i = choose|i: int| 0 <= i < spaces.len() && spaces[i] == t;
        assert(spaces.drop_last()[i] == t);
        lemma_highest_active_bounds(spaces.drop_last(), t);
    }
}

proof fn lemma_highest_active_witness(spaces: Seq<SpaceModel>)
    ensures
        highest_active(spaces) == 1 || exists|t: SpaceModel|
            spaces.contains(t) && t.is_active() && t.index == highest_active(spaces),
    decreases spaces.len(),
{
    if spaces.len() > 0 {
        let rest = spaces.drop_last();
        lemma_highest_active_witness(rest);
        assert(spaces.contains(spaces.last()));
        if highest_active(spaces) != 1 && highest_active(spaces) == highest_active(rest) {
            let t = choose|t: SpaceModel|
                rest.contains(t) && t.is_active() && t.index == highest_active(rest);
            let i = choose|i: int| 0 <= i < rest.len() && rest[i] == t;
            assert(spaces[i] == t);
        }
    }
}

/// Destroying an index at or above every space renumbers nothing.
proof fn lemma_destroy_top(spaces: Seq<SpaceModel>, x: u32)
    requires
        forall|i: int| 0 <= i < spaces.len() ==> spaces[i].index <= x,
    ensures
        forall|t: SpaceModel|
            #![trigger destroy_space(spaces, x).contains(t)]
            #![trigger spaces.contains(t)]
            destroy_space(spaces, x).contains(t) <==> spaces.contains(t) && t.index != x,
    decreases spaces.len(),
{
    if spaces.len() > 0 {
        let rest = spaces.drop_last();
        lemma_destroy_top(rest, x);
        let r = destroy_space(spaces, x);
        let rr = destroy_space(rest, x);
        let last = spaces.last();
        if last.index == x {
            assert(r == rr);
        } else {
            assert(r == rr.push(last));
        }
        assert forall|t: SpaceModel| r.contains(t) <==> spaces.contains(t) && t.index != x by {
            if r.contains(t) {
                let i = choose|i: int| 0 <= i < r.len() && r[i] == t;
                if i < rr.len() {
                    assert(rr[i] == t);
                    assert(rr.contains(t));
                    let j = choose|j: int| 0 <= j < rest.len() && rest[j] == t;
                    assert(rest[j] == spaces[j]);
                } else {
                    assert(spaces[spaces.len() - 1] == t);
                }
            }
            if spaces.contains(t) && t.index != x {
                let j = choose|j: int| 0 <= j < spaces.len() && spaces[j] == t;
                if j < rest.len() {
                    assert(rest[j] == t);
                    assert(rest.contains(t));
                    let k = choose|k: int| 0 <= k < rr.len() && rr[k] == t;
                    assert(r[k] == rr[k]);
                } else {
                    assert(r[r.len() - 1] == t);
                }
            }
        }
    }
}

/// Destroying, highest first, a set of indices above `b` that holds every
/// index above `b` removes exactly the spaces at those indices.
proof fn lemma_destroy_from_top(spaces: Seq<SpaceModel>, order: Seq<u32>, b: int)
    requires
        strictly_descending(order),
        forall|k: int| 0 <= k < order.len() ==> order[k] > b,
        forall|t: SpaceModel| spaces.contains(t) && t.index > b ==> order.contains(t.index),
    ensures
        forall|t: SpaceModel|
            #![trigger destroy_all(spaces, order).contains(t)]
            #![trigger spaces.contains(t)]
            destroy_all(spaces, order).contains(t) <==> spaces.contains(t) && !order.contains(
                t.index,
            ),
    decreases order.len(),
{
    if order.len() > 0 {
        let x = order[0];
        assert forall|i: int| 0 <= i < spaces.len() implies spaces[i].index <= x by {
            if spaces[i].index > x {
                assert(spaces.contains(spaces[i]));
                let k = choose|k: int| 0 <= k < order.len() && order[k] == spaces[i].index;
                assert(k == 0 || order[0] > order[k]);
            }
        }
        lemma_destroy_top(spaces, x);
        let next = destroy_space(spaces, x);
        let tail = order.drop_first();
        assert forall|t: SpaceModel| next.contains(t) && t.index > b implies tail.contains(
            t.index,
        ) by {
            assert(spaces.contains(t) && t.index != x);
            assert(order.contains(t.index));
            let k = choose|k: int| 0 <= k < order.len() && order[k] == t.index;
            assert(tail[k - 1] == t.index);
        }
        lemma_destroy_from_top(next, tail, b);
        assert forall|v: u32| order.contains(v) <==> v == x || tail.contains(v) by {
            if order.contains(v) && v != x {
                let k = choose|k: int| 0 <= k < order.len() && order[k] == v;
                assert(tail[k - 1] == v);
            }
            if tail.contains(v) {
                let k = choose|k: int| 0 <= k < tail.len() && tail[k] == v;
                assert(order[k + 1] == v);
            }
            if v == x {
                assert(order[0] == v);
            }
        }
    }
}

/// Reaping restores the pool's invariant: once the destroys of
/// `destroy_order` have been issued in its order, no space is left above
/// the bound computed from the spaces before the reap (the highest active
/// index, 1 if none, clamped to `max_spaces`).
pub proof fn lemma_reap_clears_above_bound(spaces: Seq<SpaceModel>, max_spaces: u32, order: Seq<u32>)
    requires
        is_destroy_order(order, spaces, max_spaces),
    ensures
        forall|i: int|
            0 <= i < destroy_all(spaces, order).len() ==> destroy_all(spaces, order)[i].index
                <= keep_bound(spaces, max_spaces),
        forall|t: SpaceModel|
            destroy_all(spaces, order).contains(t) <==> spaces.contains(t) && t.index
                <= keep_bound(spaces, max_spaces),
{
    let b = keep_bound(spaces, max_spaces);
    assert forall|k: int| 0 <= k < order.len() implies order[k] > b by {
        assert(order.contains(order[k]));
    }
    assert forall|t: SpaceModel| spaces.contains(t) && t.index > b implies order.contains(
        t.index,
    ) by {
        let i = choose|i: int| 0 <= i < spaces.len() && spaces[i] == t;
        assert(has_index(spaces, spaces[i].index));
    }
    lemma_destroy_from_top(spaces, order, b);
    let after = destroy_all(spaces, order);
    assert forall|t: SpaceModel| after.contains(t) <==> spaces.contains(t) && t.index <= b by {
        if spaces.contains(t) && t.index <= b {
            assert(!in_destroy_set(spaces, max_spaces, t.index));
        }
        if spaces.contains(t) && t.index > b {
            let i = choose|i: int| 0 <= i < spaces.len() && spaces[i] == t;
            assert(has_index(spaces, spaces[i].index));
        }
    }
    assert forall|i: int| 0 <= i < after.len() implies after[i].index <= b by {
        assert(after.contains(after[i]));
    }
}

/// Reaping twice in a row destroys nothing the second time, when the
/// highest active space is within the pool ceiling. (When it is above the
/// ceiling, the first reap destroys that active space, and the second may
/// find a lower bound.)
pub proof fn lemma_reap_idempotent(spaces: Seq<SpaceModel>, max_spaces: u32, order: Seq<u32>)
    requires
        highest_active(spaces) <= max_spaces,
        is_destroy_order(order, spaces, max_spaces),
    ensures
        forall|x: u32| !in_destroy_set(destroy_all(spaces, order), max_spaces, x),
{
    let b = keep_bound(spaces, max_spaces);
    let after = destroy_all(spaces, order);
    lemma_reap_clears_above_bound(spaces, max_spaces, order);
    lemma_highest_active_witness(spaces);
    lemma_highest_active_at_least_one(after);
    if highest_active(spaces) != 1 {
        let t = choose|t: SpaceModel|
            spaces.contains(t) && t.is_active() && t.index == highest_active(spaces);
        assert(after.contains(t));
        lemma_highest_active_bounds(after, t);
    }
    assert(keep_bound(after, max_spaces) >= b);
    assert forall|x: u32| !in_destroy_set(after, max_spaces, x) by {
        if has_index(after, x) {
            let i = choose|i: int| 0 <= i < after.len() && after[i].index == x;
            assert(after[i].index <= b);
        }
    }
}

} // verus!
