//! The first place in a row at which something holds.

use vstd::prelude::*;

verus! {

/// The least index at which `flags` holds `true`, or the length of `flags`
/// where it holds none.
pub open spec fn first_true(flags: Seq<bool>) -> int
    decreases flags.len(),
{
    if flags.len() == 0 {
        0
    } else {
        let before = first_true(flags.drop_last());
        if before < flags.len() - 1 || flags.last() {
            before
        } else {
            flags.len() as int
        }
    }
}

/// `first_true` lies within the row or at its end, no flag before it is
/// set, and the flag at it is, unless it lies at the end.
pub proof fn lemma_first_true(flags: Seq<bool>)
    ensures
        0 <= first_true(flags) <= flags.len(),
        forall|i: int| 0 <= i < first_true(flags) ==> !flags[i],
        first_true(flags) < flags.len() ==> flags[first_true(flags)],
    decreases flags.len(),
{
    if flags.len() > 0 {
        let front = flags.drop_last();
        lemma_first_true(front);
        assert forall|i: int| 0 <= i < first_true(flags) implies !flags[i] by {
            if i < front.len() {
                assert(front[i] == flags[i]);
            }
        }
        if first_true(front) < front.len() {
            assert(front[first_true(front)] == flags[first_true(front)]);
        }
    }
}

/// A place at which the flag is set, and before which none is, is the one
/// that `first_true` gives.
pub proof fn lemma_first_true_is(flags: Seq<bool>, at: int)
    requires
        0 <= at < flags.len(),
        flags[at],
        forall|i: int| 0 <= i < at ==> !flags[i],
    ensures
        first_true(flags) == at,
{
    lemma_first_true(flags);
}

/// Where no flag is set, `first_true` gives the length of the row.
pub proof fn lemma_first_true_none(flags: Seq<bool>)
    requires
        forall|i: int| 0 <= i < flags.len() ==> !flags[i],
    ensures
        first_true(flags) == flags.len(),
{
    lemma_first_true(flags);
}

} // verus!
