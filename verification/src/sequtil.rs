//! Small lemmas about sequence prefixes and suffixes, shared by the
//! in-place filtering loops of the store modules.

use vstd::prelude::*;

verus! {

/// Stepping one element past equal suffixes keeps them equal.
pub proof fn lemma_skip_step<T>(a: Seq<T>, b: Seq<T>, i: int, k: int)
    requires
        0 <= i <= a.len(),
        0 <= k <= b.len(),
        a.skip(i) == b.skip(k),
        i < a.len(),
    ensures
        a.skip(i + 1) == b.skip(k + 1),
    decreases 0int,
{
    assert(a.skip(i).len() == b.skip(k).len());
    assert forall|j: int| 0 <= j < a.skip(i + 1).len() implies #[trigger] a.skip(i + 1)[j]
        == b.skip(k + 1)[j] by {
        assert(0 <= j + 1 < a.skip(i).len());
        assert(j + 1 < b.skip(k).len());
        assert(a.skip(i)[j + 1] == b.skip(k)[j + 1]);
        assert(a.skip(i)[j + 1] == a[i + j + 1]);
        assert(b.skip(k)[j + 1] == b[k + j + 1]);
        assert(a.skip(i + 1)[j] == a[i + 1 + j]);
        assert(b.skip(k + 1)[j] == b[k + 1 + j]);
    }
    assert(a.skip(i + 1) =~= b.skip(k + 1));
}

/// Removing an element leaves the prefix before it and shifts the rest.
pub proof fn lemma_remove_parts<T>(a: Seq<T>, i: int)
    requires
        0 <= i < a.len(),
    ensures
        a.remove(i).take(i) == a.take(i),
        a.remove(i).skip(i) == a.skip(i + 1),
    decreases 0int,
{
    assert(a.remove(i).take(i) =~= a.take(i));
    assert(a.remove(i).skip(i) =~= a.skip(i + 1));
}

} // verus!
