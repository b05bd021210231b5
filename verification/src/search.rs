//! Finding the first occurrence of a value in a sequence.

use vstd::prelude::*;

verus! {

/// Where `x` first stands in `s`, or the length of `s` if it stands nowhere.
pub open spec fn first_at<T>(s: Seq<T>, x: T) -> int
    decreases s.len(),
{
    if s.len() == 0 {
        0
    } else if s[0] == x {
        0
    } else {
        1 + first_at(s.drop_first(), x)
    }
}

/// `x` first stands at `k` where it does not stand before `k` and does stand
/// at `k`, or the sequence ends there.
pub proof fn lemma_first_at<T>(s: Seq<T>, x: T, k: int)
    requires
        0 <= k <= s.len(),
        forall|j: int| 0 <= j < k ==> #[trigger] s[j] != x,
        k == s.len() || s[k] == x,
    ensures
        first_at(s, x) == k,
    decreases s.len(),
{
    if s.len() == 0 {
    } else if k == 0 {
    } else {
        assert(s[0] != x);
        let rest = s.drop_first();
        assert forall|j: int| 0 <= j < k - 1 implies #[trigger] rest[j] != x by {
            assert(rest[j] == s[j + 1]);
        }
        lemma_first_at(rest, x, k - 1);
    }
}

/// The place that `first_at` gives lies within the sequence or at its end;
/// within, `x` stands there and nowhere before.
pub proof fn lemma_first_at_found<T>(s: Seq<T>, x: T)
    ensures
        0 <= first_at(s, x) <= s.len(),
        first_at(s, x) < s.len() ==> s[first_at(s, x)] == x,
        forall|j: int| 0 <= j < first_at(s, x) ==> #[trigger] s[j] != x,
    decreases s.len(),
{
    if s.len() == 0 {
    } else if s[0] == x {
    } else {
        let rest = s.drop_first();
        lemma_first_at_found(rest, x);
        assert forall|j: int| 0 <= j < first_at(s, x) implies #[trigger] s[j] != x by {
            if j > 0 {
                assert(rest[j - 1] == s[j]);
            }
        }
    }
}

} // verus!
