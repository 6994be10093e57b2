//! Putting render results back into the order of the module list.
//!
//! Modules may be rendered in parallel, and their results may arrive in any
//! order. Each result carries the position of its module in the chunk's
//! list; arranging by position makes what follows independent of the order
//! of arrival.

use crate::fold::output_views;
use crate::rendered::{ModuleRenderOutput, ModuleRenderOutputView};
use vstd::prelude::*;

verus! {

/// One finished render: the position of the module in the chunk's list, and
/// what its renderer produced.
pub struct Completion {
    pub position: usize,
    pub output: Option<ModuleRenderOutput>,
}

/// The mathematical value of a [`Completion`].
pub struct CompletionView {
    pub position: nat,
    pub output: Option<ModuleRenderOutputView>,
}

impl View for Completion {
    type V = CompletionView;

    open spec fn view(&self) -> CompletionView {
        CompletionView {
            position: self.position as nat,
            output: match self.output {
                Some(o) => Some(o@),
                None => None,
            },
        }
    }
}

/// The views of a list of completions.
pub open spec fn completion_views(done: Seq<Completion>) -> Seq<CompletionView> {
    Seq::new(done.len(), |i: int| done[i]@)
}

/// `done` holds one result for each of the `count` positions of a list, and
/// nothing else.
pub open spec fn is_arrangement(done: Seq<CompletionView>, count: nat) -> bool {
    &&& done.len() == count
    &&& forall|i: int| 0 <= i < done.len() ==> (#[trigger] done[i]).position < count
    &&& forall|i: int, j: int|
        0 <= i < j < done.len() ==> (#[trigger] done[i]).position != (#[trigger] done[j]).position
    &&& forall|k: int| 0 <= k < count ==> holds_position(done, k)
}

/// Some result of `done` is for position `k`.
pub open spec fn holds_position(done: Seq<CompletionView>, k: int) -> bool {
    exists|i: int| 0 <= i < done.len() && (#[trigger] done[i]).position == k
}

/// The result that `done` holds for position `k`.
pub open spec fn at_position(done: Seq<CompletionView>, k: int) -> Option<ModuleRenderOutputView> {
    done[choose|i: int| 0 <= i < done.len() && (#[trigger] done[i]).position == k].output
}

/// The results of `done` in the order of the list.
pub open spec fn arranged(done: Seq<CompletionView>, count: nat) -> Seq<
    Option<ModuleRenderOutputView>,
> {
    Seq::new(count, |k: int| at_position(done, k))
}

/// Two runs that rendered the same modules to the same
/// results arrange to the same list, in whatever order the results arrived
/// in either run.
pub proof fn lemma_arrival_order_is_immaterial(
    a: Seq<CompletionView>,
    b: Seq<CompletionView>,
    count: nat,
)
    requires
        is_arrangement(a, count),
        is_arrangement(b, count),
        forall|i: int| 0 <= i < a.len() ==> b.contains(#[trigger] a[i]),
    ensures
        arranged(a, count) == arranged(b, count),
{
    assert forall|k: int| 0 <= k < count implies at_position(a, k) == at_position(b, k) by {
        assert(holds_position(a, k));
        let i = choose|i: int| 0 <= i < a.len() && (#[trigger] a[i]).position == k;
        let j = choose|j: int| 0 <= j < b.len() && (#[trigger] b[j]).position == k;
        let w = choose|w: int| 0 <= w < b.len() && b[w] == a[i];
        assert(w == j);
    }
}

/// Arranges the results of rendering `count` modules by the position of
/// their module. Returns `None` unless there is exactly one result for each
/// position.
pub fn in_list_order(count: usize, completions: Vec<Completion>) -> (r: Option<
    Vec<Option<ModuleRenderOutput>>,
>)
    ensures
        r is Some <==> is_arrangement(completion_views(completions@), count as nat),
        r matches Some(outputs) ==> output_views(outputs@) == arranged(
            completion_views(completions@),
            count as nat,
        ),
{
    let ghost done = completion_views(completions@);
    if completions.len() != count {
        return None;
    }
    let mut slots: Vec<Option<Option<ModuleRenderOutput>>> = Vec::new();
    let mut n: usize = 0;
    while n < count
        invariant
            n <= count,
            slots@.len() == n,
            forall|k: int| 0 <= k < n ==> slots@[k] is None,
        decreases count - n,
    {
        slots.push(None);
        n = n + 1;
    }
    for completion in it: completions
        invariant
            it.seq() == completions@,
            done == completion_views(completions@),
            done.len() == count,
            slots@.len() == count,
            forall|i: int| 0 <= i < it.index() ==> (#[trigger] done[i]).position < count,
            forall|i: int, j: int|
                0 <= i < j < it.index() ==> (#[trigger] done[i]).position != (
                #[trigger] done[j]).position,
            forall|i: int|
                0 <= i < it.index() ==> slot_view(slots@[(#[trigger] done[i]).position as int])
                    == Some(done[i].output),
            forall|k: int|
                0 <= k < count && (#[trigger] slots@[k]) is Some ==> exists|i: int|
                    0 <= i < it.index() && (#[trigger] done[i]).position == k,
    {
        let ghost m = it.index() as int;
        let Completion { position, output } = completion;
        if position >= count {
            return None;
        }
        if slots[position].is_some() {
            proof {
                let i = choose|i: int| 0 <= i < m && (#[trigger] done[i]).position == position;
                assert(done[i].position == done[m].position);
            }
            return None;
        }
        let ghost before = slots@;
        slots.set(position, Some(output));
        proof {
            assert forall|i: int| 0 <= i < m + 1 implies slot_view(
                slots@[(#[trigger] done[i]).position as int],
            ) == Some(done[i].output) by {
            }
            assert forall|k: int| 0 <= k < count && (#[trigger] slots@[k]) is Some implies exists|
                i: int,
            |
                0 <= i < m + 1 && (#[trigger] done[i]).position == k by {
                if k == position {
                    assert(done[m].position == k);
                } else {
                    let i = choose|i: int| 0 <= i < m && (#[trigger] done[i]).position == k;
                    assert(done[i].position == k);
                }
            }
        }
    }
    let mut outputs: Vec<Option<ModuleRenderOutput>> = Vec::new();
    let ghost filled = slots@;
    for slot in it: slots
        invariant
            it.seq() == filled,
            done == completion_views(completions@),
            filled.len() == count,
            done.len() == count,
            outputs@.len() == it.index(),
            forall|i: int| 0 <= i < done.len() ==> (#[trigger] done[i]).position < count,
            forall|i: int, j: int|
                0 <= i < j < done.len() ==> (#[trigger] done[i]).position != (
                #[trigger] done[j]).position,
            forall|i: int|
                0 <= i < done.len() ==> slot_view(filled[(#[trigger] done[i]).position as int])
                    == Some(done[i].output),
            forall|k: int|
                0 <= k < count && (#[trigger] filled[k]) is Some ==> holds_position(done, k),
            forall|k: int| 0 <= k < it.index() ==> holds_position(done, k),
            forall|k: int|
                0 <= k < it.index() ==> (#[trigger] output_views(outputs@)[k]) == at_position(
                    done,
                    k,
                ),
    {
        let ghost k = it.index() as int;
        let ghost sofar = outputs@;
        match slot {
            None => {
                proof {
                    if holds_position(done, k) {
                        let i = choose|i: int|
                            0 <= i < done.len() && (#[trigger] done[i]).position == k;
                        assert(filled[done[i].position as int] is Some);
                    }
                }
                return None;
            },
            Some(output) => {
                outputs.push(output);
                proof {
                    let i = choose|i: int|
                        0 <= i < done.len() && (#[trigger] done[i]).position == k;
                    assert(slot_view(filled[k]) == Some(done[i].output));
                    assert forall|q: int| 0 <= q < k + 1 implies (#[trigger] output_views(
                        outputs@,
                    )[q]) == at_position(done, q) by {
                        if q < k {
                            assert(output_views(sofar)[q] == at_position(done, q));
                        }
                    }
                }
            },
        }
    }
    Some(outputs)
}

/// The value of a slot: empty, or the result put there.
spec fn slot_view(slot: Option<Option<ModuleRenderOutput>>) -> Option<
    Option<ModuleRenderOutputView>,
> {
    match slot {
        Some(Some(o)) => Some(Some(o@)),
        Some(None) => Some(None),
        None => None,
    }
}

} // verus!
