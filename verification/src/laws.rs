//! The list's laws, stated over the sequence model that the operation
//! contracts speak of.  Each operation's `ensures` pins the new contents down
//! as a sequence expression (`push`, `insert`, `remove`, `update`); the proofs
//! here spell out what those expressions mean element by element, so that the
//! guarantees the list makes are on record rather than left implicit.

use vstd::prelude::*;

use crate::array_list::{slot_key, StableArrayListInner};
use crate::mem::{block_size, BlockMemory};

verus! {

/// Bounds discipline.  Out-of-range calls are rejected fail-fast at the
/// contract: `get` and `replace` require `index < len`, `insert` requires
/// `index <= len`, and `remove` requires `index < len`, so a call one past
/// those bounds never verifies.  This lemma states the other half in general:
/// under `wf`, every slot the operations may ever address — the live
/// elements, the free slots up to the capacity, and the sentinel — lies
/// wholly inside the backing block, and the word-access contracts demand
/// in-block offsets, so no operation can read or write past the layout.
pub proof fn lemma_accesses_confined(list: StableArrayListInner, m: BlockMemory, i: int)
    requires
        list.wf(m),
        0 <= i <= list.cap as int,
    ensures
        1 <= slot_key(i) as int,
        slot_key(i) as int + 8 <= block_size(list.sl()) as int,
{
}

/// Pushing appends: after a push the length grows by one, the pushed value
/// stands at the old length, and every previously stored element is
/// unchanged.  Chained over a run of pushes onto an empty list, the element
/// at `i` is the `i`-th pushed value; and since growth leaves the contents
/// sequence intact, this holds across any growth the pushes trigger.
pub proof fn lemma_push_appends(pre: Seq<u64>, v: u64)
    ensures
        pre.push(v).len() == pre.len() + 1,
        pre.push(v)[pre.len() as int] == v,
        forall|i: int| 0 <= i < pre.len() ==> pre.push(v)[i] == pre[i],
{
}

/// Inserting shifts right and corrupts nothing: the elements before `i` keep
/// their place, the inserted value stands at `i`, and every element from `i`
/// on reappears exactly one slot higher.
pub proof fn lemma_insert_shifts(pre: Seq<u64>, i: int, v: u64)
    requires
        0 <= i <= pre.len(),
    ensures
        pre.insert(i, v).len() == pre.len() + 1,
        pre.insert(i, v)[i] == v,
        forall|j: int| 0 <= j < i ==> pre.insert(i, v)[j] == pre[j],
        forall|j: int| i <= j < pre.len() ==> pre.insert(i, v)[j + 1] == pre[j],
{
}

/// Removing shifts left, the mirror image of inserting.
pub proof fn lemma_remove_shifts(pre: Seq<u64>, i: int)
    requires
        0 <= i < pre.len(),
    ensures
        pre.remove(i).len() == pre.len() - 1,
        forall|j: int| 0 <= j < i ==> pre.remove(i)[j] == pre[j],
        forall|j: int| i <= j < pre.len() - 1 ==> pre.remove(i)[j] == pre[j + 1],
{
}

/// Insert and remove are inverses: inserting a value at `i` and immediately
/// removing at `i` restores the length and every element.
pub proof fn lemma_insert_remove_inverse(pre: Seq<u64>, i: int, v: u64)
    requires
        0 <= i <= pre.len(),
    ensures
        pre.insert(i, v).remove(i) == pre,
{
    assert(pre.insert(i, v).remove(i) =~= pre);
}

} // verus!
