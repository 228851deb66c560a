//! Handles: the small numbers by which the hub knows its subscribers and its
//! sinks.

use vstd::prelude::*;

verus! {

/// Whether `id` is the least handle that is not among `taken`.
pub open spec fn is_least_free(taken: Set<nat>, id: nat) -> bool {
    &&& !taken.contains(id)
    &&& forall|lower: nat| lower < id ==> taken.contains(lower)
}

/// The handles below `count`.
pub open spec fn handles_below(count: nat) -> Set<nat> {
    Set::new(|id: nat| id < count)
}

/// There are `count` handles below `count`, and so finitely many.
pub proof fn lemma_handles_below(count: nat)
    ensures
        handles_below(count).finite(),
        handles_below(count).len() == count,
    decreases count,
{
    if count == 0 {
        assert(handles_below(count) =~= Set::<nat>::empty());
    } else {
        let fewer = (count - 1) as nat;
        lemma_handles_below(fewer);
        assert(handles_below(count) =~= handles_below(fewer).insert(fewer));
    }
}

} // verus!
