//! Lookup of live records by their numeric id.

use vstd::prelude::*;

verus! {

/// Records that carry a numeric id.
pub trait Numbered {
    spec fn number(&self) -> u64;

    fn number_value(&self) -> (n: u64)
        ensures
            n == self.number(),
    ;
}

/// The position of the first record with id `id`.
pub open spec fn first_numbered<T: Numbered>(items: Seq<T>, id: u64) -> Option<int>
    decreases items.len(),
{
    if items.len() == 0 {
        None
    } else {
        match first_numbered(items.drop_last(), id) {
            Some(i) => Some(i),
            None => if items.last().number() == id {
                Some(items.len() - 1)
            } else {
                None
            },
        }
    }
}

/// The first record with id `id`.
pub open spec fn find_record<T: Numbered>(items: Seq<T>, id: u64) -> Option<T> {
    match first_numbered(items, id) {
        Some(i) => Some(items[i]),
        None => None,
    }
}

pub proof fn lemma_first_numbered<T: Numbered>(items: Seq<T>, id: u64)
    ensures
        match first_numbered(items, id) {
            Some(i) => 0 <= i < items.len() && items[i].number() == id && forall|j: int|
                0 <= j < i ==> items[j].number() != id,
            None => forall|j: int| 0 <= j < items.len() ==> items[j].number() != id,
        },
    decreases items.len(),
{
    if items.len() > 0 {
        let prefix = items.drop_last();
        lemma_first_numbered(prefix, id);
        assert forall|j: int| 0 <= j < prefix.len() implies prefix[j] == items[j] by {}
    }
}

/// Replacing a record by one with the same id keeps every first match in place.
pub proof fn lemma_first_numbered_update<T: Numbered>(items: Seq<T>, i: int, x: T, id: u64)
    requires
        0 <= i < items.len(),
        x.number() == items[i].number(),
    ensures
        first_numbered(items.update(i, x), id) == first_numbered(items, id),
    decreases items.len(),
{
    let updated = items.update(i, x);
    if i == items.len() - 1 {
        assert(updated.drop_last() =~= items.drop_last());
    } else {
        assert(updated.drop_last() =~= items.drop_last().update(i, x));
        lemma_first_numbered_update(items.drop_last(), i, x, id);
    }
}

/// Appending a record only gives a first match to its own, previously absent, id.
pub proof fn lemma_first_numbered_push<T: Numbered>(items: Seq<T>, x: T, id: u64)
    ensures
        first_numbered(items.push(x), id) == (match first_numbered(items, id) {
            Some(i) => Some(i),
            None => if x.number() == id {
                Some(items.len() as int)
            } else {
                None
            },
        }),
{
    assert(items.push(x).drop_last() =~= items);
}

proof fn lemma_prefix_first_numbered<T: Numbered>(items: Seq<T>, id: u64, n: int)
    requires
        0 <= n <= items.len(),
        first_numbered(items.take(n), id) is Some,
    ensures
        first_numbered(items, id) == first_numbered(items.take(n), id),
    decreases items.len() - n,
{
    if n < items.len() {
        assert(items.take(n + 1).drop_last() =~= items.take(n));
        lemma_prefix_first_numbered(items, id, n + 1);
    } else {
        assert(items.take(n) =~= items);
    }
}

/// Finds the position of the first record with id `id`.
pub fn find_numbered<T: Numbered>(items: &Vec<T>, id: u64) -> (r: Option<usize>)
    ensures
        match r {
            Some(i) => first_numbered(items@, id) == Some(i as int),
            None => first_numbered(items@, id) == None::<int>,
        },
        r matches Some(i) ==> i < items.len() && items@[i as int].number() == id,
{
    let mut i: usize = 0;
    while i < items.len()
        invariant
            i <= items.len(),
            first_numbered(items@.take(i as int), id) == None::<int>,
        decreases items.len() - i,
    {
        assert(items@.take(i as int + 1).drop_last() =~= items@.take(i as int));
        if items[i].number_value() == id {
            assert(items@.take(i as int + 1).last() == items@[i as int]);
            proof {
                lemma_prefix_first_numbered(items@, id, i as int + 1);
            }
            return Some(i);
        }
        i += 1;
    }
    assert(items@.take(items.len() as int) =~= items@);
    None
}

/// Two lists whose records carry the same ids, position by position, find
/// every id at the same place.
pub proof fn lemma_first_numbered_same_ids<T: Numbered>(a: Seq<T>, b: Seq<T>, id: u64)
    requires
        a.len() == b.len(),
        forall|k: int| 0 <= k < a.len() ==> (#[trigger] a[k]).number() == b[k].number(),
    ensures
        first_numbered(a, id) == first_numbered(b, id),
    decreases a.len(),
{
    if a.len() > 0 {
        let pa = a.drop_last();
        let pb = b.drop_last();
        assert forall|k: int| 0 <= k < pa.len() implies (#[trigger] pa[k]).number() == pb[k].number() by {
            assert(pa[k] == a[k] && pb[k] == b[k]);
        }
        lemma_first_numbered_same_ids(pa, pb, id);
        assert(a.last().number() == b.last().number()) by {
            assert(a.last() == a[a.len() - 1] && b.last() == b[b.len() - 1]);
        }
    }
}

} // verus!
