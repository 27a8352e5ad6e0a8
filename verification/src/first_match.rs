//! The first element of a sequence that satisfies a predicate, and what is
//! known of it.

use vstd::prelude::*;

verus! {

/// The first element of `s`, in order, that satisfies `pred`.
pub open spec fn first_match<T>(s: Seq<T>, pred: spec_fn(T) -> bool) -> Option<T>
    decreases s.len(),
{
    if s.len() == 0 {
        None
    } else if pred(s[0]) {
        Some(s[0])
    } else {
        first_match(s.drop_first(), pred)
    }
}

/// Whether `k` is the first index of `s` whose element satisfies `pred`.
pub open spec fn is_first_match_index<T>(s: Seq<T>, pred: spec_fn(T) -> bool, k: int) -> bool {
    &&& 0 <= k < s.len()
    &&& pred(s[k])
    &&& forall|j: int| 0 <= j < k ==> !pred(#[trigger] s[j])
}

/// Passing over an element that does not satisfy the predicate leaves the
/// first match of the rest unchanged.
pub proof fn lemma_first_match_skip<T>(s: Seq<T>, pred: spec_fn(T) -> bool, k: int)
    requires
        0 <= k < s.len(),
        !pred(s[k]),
    ensures
        first_match(s.skip(k), pred) == first_match(s.skip(k + 1), pred),
{
    assert(s.skip(k).drop_first() =~= s.skip(k + 1));
}

/// The first match is the element at the first index that satisfies the
/// predicate; there is none exactly when no element satisfies it.
pub proof fn lemma_first_match_is_first_index<T>(s: Seq<T>, pred: spec_fn(T) -> bool)
    ensures
        match first_match(s, pred) {
            Some(e) => exists|k: int| is_first_match_index(s, pred, k) && #[trigger] s[k] == e,
            None => forall|j: int| 0 <= j < s.len() ==> !pred(#[trigger] s[j]),
        },
    decreases s.len(),
{
    if s.len() == 0 {
    } else if pred(s[0]) {
        assert(is_first_match_index(s, pred, 0));
        assert(s[0] == s[0]);
    } else {
        let rest = s.drop_first();
        lemma_first_match_is_first_index(rest, pred);
        match first_match(rest, pred) {
            Some(e) => {
                let k = choose|k: int| is_first_match_index(rest, pred, k) && #[trigger] rest[k] == e;
                assert forall|j: int| 0 <= j < k + 1 implies !pred(#[trigger] s[j]) by {
                    if j > 0 {
                        assert(s[j] == rest[j - 1]);
                    }
                }
                assert(s[k + 1] == e);
                assert(is_first_match_index(s, pred, k + 1));
            },
            None => {
                assert forall|j: int| 0 <= j < s.len() implies !pred(#[trigger] s[j]) by {
                    if j > 0 {
                        assert(s[j] == rest[j - 1]);
                    }
                }
            },
        }
    }
}

} // verus!
