//! First-match search over sequences.

use vstd::prelude::*;

verus! {

/// The position of the first element of `s` that satisfies `p`, or `s.len()`
/// when none does.
pub open spec fn first_at<T>(s: Seq<T>, p: spec_fn(T) -> bool) -> int
    decreases s.len(),
{
    if s.len() == 0 || p(s[0]) {
        0
    } else {
        1 + first_at(s.drop_first(), p)
    }
}

/// The first element of `s` that satisfies `p`, if any does.
pub open spec fn first_of<T>(s: Seq<T>, p: spec_fn(T) -> bool) -> Option<T> {
    if first_at(s, p) < s.len() {
        Some(s[first_at(s, p)])
    } else {
        None
    }
}

/// Whether some element of `s` satisfies `p`.
pub open spec fn any<T>(s: Seq<T>, p: spec_fn(T) -> bool) -> bool {
    first_at(s, p) < s.len()
}

/// The elements of `s` that satisfy `p`, in order.
pub open spec fn kept<T>(s: Seq<T>, p: spec_fn(T) -> bool) -> Seq<T>
    decreases s.len(),
{
    if s.len() == 0 {
        seq![]
    } else if p(s.last()) {
        kept(s.drop_last(), p).push(s.last())
    } else {
        kept(s.drop_last(), p)
    }
}

/// What the first-match position says of the elements before it and at it.
pub proof fn first_at_bounds<T>(s: Seq<T>, p: spec_fn(T) -> bool)
    ensures
        0 <= first_at(s, p) <= s.len(),
        first_at(s, p) < s.len() ==> p(s[first_at(s, p)]),
        forall|j: int| 0 <= j < first_at(s, p) ==> !p(#[trigger] s[j]),
    decreases s.len(),
{
    if s.len() == 0 || p(s[0]) {
    } else {
        let t = s.drop_first();
        first_at_bounds(t, p);
        assert forall|j: int| 0 <= j < first_at(s, p) implies !p(#[trigger] s[j]) by {
            if j > 0 {
                assert(s[j] == t[j - 1]);
            }
        }
    }
}

/// A position with no match before it, and either a match at it or the end of
/// the sequence, is the first-match position.
pub proof fn first_at_is<T>(s: Seq<T>, p: spec_fn(T) -> bool, i: int)
    requires
        0 <= i <= s.len(),
        i < s.len() ==> p(s[i]),
        forall|j: int| 0 <= j < i ==> !p(#[trigger] s[j]),
    ensures
        first_at(s, p) == i,
{
    first_at_bounds(s, p);
    let f = first_at(s, p);
    if f < i {
        assert(!p(s[f]));
    } else if f > i {
        assert(!p(s[i]));
    }
}

/// Everything that is kept satisfies the test, and came from the sequence.
pub proof fn kept_satisfies<T>(s: Seq<T>, p: spec_fn(T) -> bool)
    ensures
        forall|i: int| 0 <= i < kept(s, p).len() ==> p(#[trigger] kept(s, p)[i]),
        kept(s, p).len() <= s.len(),
    decreases s.len(),
{
    if s.len() > 0 {
        kept_satisfies(s.drop_last(), p);
    }
}

/// Keeping elements introduces no duplicates.
pub proof fn kept_no_duplicates<T>(s: Seq<T>, p: spec_fn(T) -> bool)
    requires
        s.no_duplicates(),
    ensures
        kept(s, p).no_duplicates(),
        forall|i: int| 0 <= i < kept(s, p).len() ==> s.contains(#[trigger] kept(s, p)[i]),
    decreases s.len(),
{
    if s.len() > 0 {
        let front = s.drop_last();
        assert(front.no_duplicates()) by {
            assert forall|i: int, j: int| 0 <= i < front.len() && 0 <= j < front.len() && i != j implies front[i]
                != front[j] by {
                assert(s[i] != s[j]);
            }
        }
        kept_no_duplicates(front, p);
        let k = kept(front, p);
        assert forall|i: int| 0 <= i < k.len() implies s.contains(#[trigger] k[i]) && k[i] != s.last() by {
            assert(front.contains(k[i]));
            let m = front.index_of(k[i]);
            assert(s[m] == k[i]);
            assert(s[m] != s[s.len() - 1]);
        }
        assert(s.contains(s[s.len() - 1]));
        let all = kept(s, p);
        assert forall|i: int| 0 <= i < all.len() implies s.contains(#[trigger] all[i]) by {
            if i < k.len() {
                assert(all[i] == k[i]);
            }
        }
        assert forall|i: int, j: int| 0 <= i < all.len() && 0 <= j < all.len() && i != j implies all[i]
            != all[j] by {
            if i < k.len() {
                assert(all[i] == k[i]);
            }
            if j < k.len() {
                assert(all[j] == k[j]);
            }
        }
    }
}

} // verus!
