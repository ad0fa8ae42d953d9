//! Searches over sequences, stated once and reused by the engines.

use vstd::prelude::*;

verus! {

/// The position of the first element that satisfies `p`.
pub open spec fn first_where<T>(s: Seq<T>, p: spec_fn(T) -> bool) -> Option<int>
    decreases s.len(),
{
    if s.len() == 0 {
        None
    } else {
        match first_where(s.drop_last(), p) {
            Some(i) => Some(i),
            None => if p(s.last()) {
                Some(s.len() - 1)
            } else {
                None
            },
        }
    }
}

pub proof fn lemma_first_where<T>(s: Seq<T>, p: spec_fn(T) -> bool)
    ensures
        match first_where(s, p) {
            Some(i) => 0 <= i < s.len() && p(s[i]) && forall|j: int| 0 <= j < i ==> !p(#[trigger] s[j]),
            None => forall|j: int| 0 <= j < s.len() ==> !p(#[trigger] s[j]),
        },
    decreases s.len(),
{
    if s.len() > 0 {
        let prefix = s.drop_last();
        lemma_first_where(prefix, p);
        assert forall|j: int| 0 <= j < prefix.len() implies prefix[j] == s[j] by {}
    }
}

/// A first match found in a prefix is the first match of the whole sequence.
pub proof fn lemma_first_where_prefix<T>(s: Seq<T>, p: spec_fn(T) -> bool, n: int)
    requires
        0 <= n <= s.len(),
        first_where(s.take(n), p) is Some,
    ensures
        first_where(s, p) == first_where(s.take(n), p),
    decreases s.len() - n,
{
    if n < s.len() {
        assert(s.take(n + 1).drop_last() =~= s.take(n));
        lemma_first_where_prefix(s, p, n + 1);
    } else {
        assert(s.take(n) =~= s);
    }
}

/// One step of a left-to-right scan for the first match.
pub proof fn lemma_first_where_step<T>(s: Seq<T>, p: spec_fn(T) -> bool, i: int)
    requires
        0 <= i < s.len(),
        first_where(s.take(i), p) is None,
    ensures
        first_where(s.take(i + 1), p) == if p(s[i]) { Some(i) } else { None },
        p(s[i]) ==> first_where(s, p) == Some(i),
{
    assert(s.take(i + 1).drop_last() =~= s.take(i));
    assert(s.take(i + 1).last() == s[i]);
    if p(s[i]) {
        lemma_first_where_prefix(s, p, i + 1);
    }
}

/// The scan found no match anywhere.
pub proof fn lemma_first_where_done<T>(s: Seq<T>, p: spec_fn(T) -> bool)
    requires
        first_where(s.take(s.len() as int), p) is None,
    ensures
        first_where(s, p) is None,
{
    assert(s.take(s.len() as int) =~= s);
}

/// The position of the element with the smallest key among those that satisfy
/// `p`; the first such element wins ties.
pub open spec fn first_min_where<T>(s: Seq<T>, p: spec_fn(T) -> bool, key: spec_fn(T) -> int) -> Option<int>
    decreases s.len(),
{
    if s.len() == 0 {
        None
    } else {
        let best = first_min_where(s.drop_last(), p, key);
        if p(s.last()) && (best is None || key(s.last()) < key(s[best.unwrap()])) {
            Some(s.len() - 1)
        } else {
            best
        }
    }
}

/// The position of the element with the largest key among those that satisfy
/// `p`; the last such element wins ties.
pub open spec fn last_max_where<T>(s: Seq<T>, p: spec_fn(T) -> bool, key: spec_fn(T) -> int) -> Option<int>
    decreases s.len(),
{
    if s.len() == 0 {
        None
    } else {
        let best = last_max_where(s.drop_last(), p, key);
        if p(s.last()) && (best is None || key(s.last()) >= key(s[best.unwrap()])) {
            Some(s.len() - 1)
        } else {
            best
        }
    }
}

/// The chosen element satisfies `p` and has the largest key among those
/// that do; every later one that satisfies `p` has a smaller key.
pub proof fn lemma_last_max_where_choice<T>(s: Seq<T>, p: spec_fn(T) -> bool, key: spec_fn(T) -> int)
    ensures
        match last_max_where(s, p, key) {
            Some(i) => {
                &&& 0 <= i < s.len() && p(s[i])
                &&& forall|j: int| 0 <= j < s.len() && p(#[trigger] s[j]) ==> key(s[j]) <= key(s[i])
                &&& forall|j: int| i < j < s.len() && p(#[trigger] s[j]) ==> key(s[j]) < key(s[i])
            },
            None => forall|j: int| 0 <= j < s.len() ==> !p(#[trigger] s[j]),
        },
    decreases s.len(),
{
    if s.len() > 0 {
        let prefix = s.drop_last();
        lemma_last_max_where_choice(prefix, p, key);
        assert forall|j: int| 0 <= j < prefix.len() implies prefix[j] == s[j] by {}
    }
}

/// The chosen element satisfies `p` and has the smallest key among those
/// that do; every earlier one that satisfies `p` has a larger key.
pub proof fn lemma_first_min_where_choice<T>(s: Seq<T>, p: spec_fn(T) -> bool, key: spec_fn(T) -> int)
    ensures
        match first_min_where(s, p, key) {
            Some(i) => {
                &&& 0 <= i < s.len() && p(s[i])
                &&& forall|j: int| 0 <= j < s.len() && p(#[trigger] s[j]) ==> key(s[i]) <= key(s[j])
                &&& forall|j: int| 0 <= j < i && p(#[trigger] s[j]) ==> key(s[i]) < key(s[j])
            },
            None => forall|j: int| 0 <= j < s.len() ==> !p(#[trigger] s[j]),
        },
    decreases s.len(),
{
    if s.len() > 0 {
        let prefix = s.drop_last();
        lemma_first_min_where_choice(prefix, p, key);
        assert forall|j: int| 0 <= j < prefix.len() implies prefix[j] == s[j] by {}
    }
}

pub proof fn lemma_first_min_where_bounds<T>(s: Seq<T>, p: spec_fn(T) -> bool, key: spec_fn(T) -> int)
    ensures
        first_min_where(s, p, key) matches Some(i) ==> 0 <= i < s.len() && p(s[i]),
    decreases s.len(),
{
    if s.len() > 0 {
        lemma_first_min_where_bounds(s.drop_last(), p, key);
        let best = first_min_where(s.drop_last(), p, key);
        if best is Some {
            assert(s.drop_last()[best.unwrap()] == s[best.unwrap()]);
        }
    }
}

pub proof fn lemma_last_max_where_bounds<T>(s: Seq<T>, p: spec_fn(T) -> bool, key: spec_fn(T) -> int)
    ensures
        last_max_where(s, p, key) matches Some(i) ==> 0 <= i < s.len() && p(s[i]),
    decreases s.len(),
{
    if s.len() > 0 {
        lemma_last_max_where_bounds(s.drop_last(), p, key);
        let best = last_max_where(s.drop_last(), p, key);
        if best is Some {
            assert(s.drop_last()[best.unwrap()] == s[best.unwrap()]);
        }
    }
}

} // verus!
