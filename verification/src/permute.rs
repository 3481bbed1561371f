//! Reordering a list by a list of its indices.
use vstd::prelude::*;
use vstd::pervasive::VecAdditionalExecFns;

verus! {

/// Whether `order` names each index of a list of length `n` at most once.
pub open spec fn distinct_indices(order: Seq<usize>, n: int) -> bool {
    &&& forall|i: int| 0 <= i < order.len() ==> (#[trigger] order[i]) < n
    &&& forall|i: int, j: int| 0 <= i < j < order.len() ==> #[trigger] order[i] != #[trigger] order[j]
}

/// The items at the given indices, in the order of the indices.
pub fn permute<T>(items: Vec<T>, order: &Vec<usize>) -> (r: Vec<T>)
    requires
        distinct_indices(order@, items@.len() as int),
    ensures
        r@.len() == order@.len(),
        forall|i: int| 0 <= i < r@.len() ==> r@[i] == items@[#[trigger] order@[i] as int],
{
    let ghost orig = items@;
    let n = items.len();
    let mut items = items;
    let mut slots: Vec<Option<T>> = Vec::new();
    while items.len() > 0
        invariant
            slots@.len() + items@.len() == n,
            n == orig.len(),
            items@ == orig.subrange(slots@.len() as int, n as int),
            forall|j: int| 0 <= j < slots@.len() ==> #[trigger] slots@[j] == Some(orig[j]),
        decreases items@.len(),
    {
        let x = items.remove(0);
        assert(x == orig[slots@.len() as int]);
        slots.push(Some(x));
        assert(items@ =~= orig.subrange(slots@.len() as int, n as int));
    }
    let mut out: Vec<T> = Vec::new();
    let mut i: usize = 0;
    while i < order.len()
        invariant
            distinct_indices(order@, orig.len() as int),
            slots@.len() == orig.len(),
            i <= order@.len(),
            out@.len() == i,
            forall|m: int| 0 <= m < i ==> out@[m] == orig[#[trigger] order@[m] as int],
            forall|j: int|
                0 <= j < slots@.len() ==> #[trigger] slots@[j] == Some(orig[j]) || (slots@[j] is None && exists|m: int|
                    0 <= m < i && order@[m] == j),
        decreases order@.len() - i,
    {
        let idx = order[i];
        proof {
            if slots@[idx as int] is None {
                let m = choose|m: int| 0 <= m < i && order@[m] == idx;
                assert(order@[m] != order@[i as int]);
            }
        }
        let mut tmp: Option<T> = None;
        let ghost s0 = slots@;
        slots.set_and_swap(idx, &mut tmp);
        match tmp {
            Some(x) => {
                out.push(x);
            },
            None => {
                assert(false);
            },
        }
        proof {
            assert forall|j: int|
                0 <= j < slots@.len() implies #[trigger] slots@[j] == Some(orig[j]) || (slots@[j] is None && exists|m: int|
                    0 <= m < i + 1 && order@[m] == j) by {
                if j == idx {
                    assert(order@[i as int] == j);
                } else {
                    assert(slots@[j] == s0[j]);
                    if s0[j] is None {
                        let m = choose|m: int| 0 <= m < i && order@[m] == j;
                        assert(0 <= m < i + 1 && order@[m] == j);
                    }
                }
            }
        }
        i = i + 1;
    }
    out
}

} // verus!
