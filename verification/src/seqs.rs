//! Counting over sequences.
use vstd::prelude::*;

verus! {

/// The number of `true` entries.
pub open spec fn count_of(flags: Seq<bool>) -> nat
    decreases flags.len(),
{
    if flags.len() == 0 {
        0
    } else {
        count_of(flags.drop_last()) + if flags.last() { 1nat } else { 0nat }
    }
}

/// The count of a prefix one longer.
pub proof fn lemma_count_of_step(flags: Seq<bool>, k: nat)
    requires
        k < flags.len(),
    ensures
        count_of(flags.take(k + 1int)) == count_of(flags.take(k as int)) + if flags[k as int] { 1nat } else { 0nat },
        count_of(flags.take(k as int)) <= k,
    decreases k,
{
    assert(flags.take(k + 1int).drop_last() =~= flags.take(k as int));
    if k > 0 {
        lemma_count_of_step(flags, (k - 1) as nat);
    } else {
        assert(flags.take(0) =~= Seq::<bool>::empty());
    }
}

} // verus!
