//! The first element of a sequence that meets a condition.

use vstd::prelude::*;

verus! {

/// The least index at which `s` holds an element that meets `p`, if any.
pub open spec fn first_where<A>(s: Seq<A>, p: spec_fn(A) -> bool) -> Option<int>
    decreases s.len(),
{
    if s.len() == 0 {
        None
    } else {
        match first_where(s.drop_last(), p) {
            Some(k) => Some(k),
            None => if p(s.last()) {
                Some(s.len() - 1)
            } else {
                None
            },
        }
    }
}

/// `first_where` answers with an index whose element meets `p` and before
/// which none does; it answers `None` only where no element meets `p`.
pub proof fn lemma_first_where<A>(s: Seq<A>, p: spec_fn(A) -> bool)
    ensures
        match first_where(s, p) {
            Some(k) => 0 <= k < s.len() && p(s[k]) && forall|j: int| 0 <= j < k ==> !p(#[trigger] s[j]),
            None => forall|j: int| 0 <= j < s.len() ==> !p(#[trigger] s[j]),
        },
    decreases s.len(),
{
    if s.len() > 0 {
        let front = s.drop_last();
        lemma_first_where(front, p);
        assert forall|j: int| 0 <= j < front.len() implies front[j] == s[j] by {}
    }
}

/// What is found among the first `n` elements is what is found in all of them.
pub proof fn lemma_first_where_prefix<A>(s: Seq<A>, p: spec_fn(A) -> bool, n: int)
    requires
        0 <= n <= s.len(),
        first_where(s.take(n), p) is Some,
    ensures
        first_where(s, p) == first_where(s.take(n), p),
    decreases s.len() - n,
{
    if n < s.len() {
        assert(s.take(n + 1).drop_last() =~= s.take(n));
        lemma_first_where_prefix(s, p, n + 1);
    } else {
        assert(s.take(n) =~= s);
    }
}

/// One more element: the answer for the first `n + 1` elements, from that
/// for the first `n`.
pub proof fn lemma_first_where_step<A>(s: Seq<A>, p: spec_fn(A) -> bool, n: int)
    requires
        0 <= n < s.len(),
    ensures
        first_where(s.take(n + 1), p) == match first_where(s.take(n), p) {
            Some(k) => Some(k),
            None => if p(s[n]) {
                Some(n)
            } else {
                None
            },
        },
{
    assert(s.take(n + 1).drop_last() =~= s.take(n));
}

} // verus!
