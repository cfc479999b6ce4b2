//! First-index search over sequences, shared by the stores and the stat
//! extraction: a recursive spec function together with the two lemmas that
//! characterise it, and two lemmas about how it moves across updates.

use vstd::prelude::*;

verus! {

/// Index of the first element satisfying `p`, if any.
pub open spec fn find_first_where<T>(s: Seq<T>, p: spec_fn(T) -> bool) -> Option<int>
    decreases s.len(),
{
    if s.len() == 0 {
        None
    } else if p(s[0]) {
        Some(0 as int)
    } else {
        match find_first_where(s.skip(1), p) {
            Some(i) => Some(i + 1),
            None => None,
        }
    }
}

/// `find_first_where` points at a satisfying element, and at no earlier one;
/// `None` means no element satisfies `p`.
pub proof fn lemma_find_first_where_props<T>(s: Seq<T>, p: spec_fn(T) -> bool)
    ensures
        match find_first_where(s, p) {
            Some(i) => 0 <= i < s.len() && p(s[i]) && (forall|j: int| 0 <= j < i ==> !p(s[j])),
            None => forall|j: int| 0 <= j < s.len() ==> !p(s[j]),
        },
    decreases s.len(),
{
    if s.len() == 0 {
    } else if p(s[0]) {
    } else {
        lemma_find_first_where_props(s.skip(1), p);
        match find_first_where(s.skip(1), p) {
            Some(i) => {
                assert(s.skip(1)[i] == s[i + 1]);
                assert forall|j: int| 0 <= j < i + 1 implies !p(s[j]) by {
                    if j > 0 {
                        assert(s.skip(1)[j - 1] == s[j]);
                        assert(!p(s.skip(1)[j - 1]));
                    }
                }
            },
            None => {
                assert forall|j: int| 0 <= j < s.len() implies !p(s[j]) by {
                    if j > 0 {
                        assert(s.skip(1)[j - 1] == s[j]);
                        assert(!p(s.skip(1)[j - 1]));
                    }
                }
            },
        }
    }
}

/// Converse direction: a satisfying index with no earlier one pins the result.
pub proof fn lemma_find_first_where_at<T>(s: Seq<T>, p: spec_fn(T) -> bool, i: int)
    requires
        0 <= i < s.len(),
        p(s[i]),
        forall|j: int| 0 <= j < i ==> !p(s[j]),
    ensures
        find_first_where(s, p) == Some(i),
    decreases s.len(),
{
    if i == 0 {
    } else {
        assert(!p(s[0]));
        assert forall|j: int| 0 <= j < i - 1 implies !p(s.skip(1)[j]) by {
            assert(s.skip(1)[j] == s[j + 1]);
            assert(!p(s[j + 1]));
        }
        assert(s.skip(1)[i - 1] == s[i]);
        lemma_find_first_where_at(s.skip(1), p, i - 1);
    }
}

/// Two sequences on which `p` agrees pointwise are searched alike.
pub proof fn lemma_find_first_where_ext<T>(s1: Seq<T>, s2: Seq<T>, p: spec_fn(T) -> bool)
    requires
        s1.len() == s2.len(),
        forall|j: int| 0 <= j < s1.len() ==> p(s1[j]) == p(s2[j]),
    ensures
        find_first_where(s1, p) == find_first_where(s2, p),
    decreases s1.len(),
{
    if s1.len() > 0 {
        assert(p(s1[0]) == p(s2[0]));
        assert forall|j: int| 0 <= j < s1.len() - 1 implies p(s1.skip(1)[j]) == p(
            s2.skip(1)[j],
        ) by {
            assert(s1.skip(1)[j] == s1[j + 1]);
            assert(s2.skip(1)[j] == s2[j + 1]);
            assert(p(s1[j + 1]) == p(s2[j + 1]));
        }
        lemma_find_first_where_ext(s1.skip(1), s2.skip(1), p);
    }
}

/// Appending changes the search result only when nothing matched before.
pub proof fn lemma_find_first_where_push<T>(s: Seq<T>, p: spec_fn(T) -> bool, x: T)
    ensures
        find_first_where(s.push(x), p) == match find_first_where(s, p) {
            Some(i) => Some(i),
            None => if p(x) {
                Some(s.len() as int)
            } else {
                None
            },
        },
    decreases s.len(),
{
    if s.len() == 0 {
        assert(s.push(x)[0] == x);
        assert(s.push(x).skip(1) =~= Seq::<T>::empty());
        if !p(x) {
            assert(find_first_where(s.push(x).skip(1), p) is None);
        }
    } else {
        assert(s.push(x).len() == s.len() + 1);
        assert(s.push(x)[0] == s[0]);
        assert(p(s.push(x)[0]) == p(s[0]));
        assert(s.push(x).skip(1) =~= s.skip(1).push(x));
        lemma_find_first_where_push(s.skip(1), p, x);
        if !p(s[0]) {
            assert(find_first_where(s.push(x), p) == (match find_first_where(
                s.skip(1).push(x),
                p,
            ) {
                Some(i) => Some(i + 1),
                None => None,
            }));
        }
    }
}

} // verus!
