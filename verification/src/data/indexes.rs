//! The id checks run while content is indexed: repeated ids are reported in
//! sorted order, each once.

use vstd::prelude::*;
use crate::data::game_data::{floors_unique, keys_unique, FloorKeyed, Keyed};

verus! {

/// Text order: character by character, a proper prefix first.
pub open spec fn text_lt(a: Seq<char>, b: Seq<char>) -> bool
    decreases a.len(),
{
    if a.len() == 0 {
        b.len() > 0
    } else if b.len() == 0 {
        false
    } else if a[0] != b[0] {
        a[0] < b[0]
    } else {
        text_lt(a.drop_first(), b.drop_first())
    }
}

pub proof fn lemma_text_lt_irreflexive(a: Seq<char>)
    ensures
        !text_lt(a, a),
    decreases a.len(),
{
    if a.len() > 0 {
        lemma_text_lt_irreflexive(a.drop_first());
    }
}

pub proof fn lemma_text_lt_asymmetric(a: Seq<char>, b: Seq<char>)
    ensures
        !(text_lt(a, b) && text_lt(b, a)),
    decreases a.len(),
{
    if a.len() > 0 && b.len() > 0 && a[0] == b[0] {
        lemma_text_lt_asymmetric(a.drop_first(), b.drop_first());
    }
}

pub proof fn lemma_text_lt_total(a: Seq<char>, b: Seq<char>)
    ensures
        text_lt(a, b) || text_lt(b, a) || a == b,
    decreases a.len(),
{
    if a.len() > 0 && b.len() > 0 {
        if a[0] == b[0] {
            lemma_text_lt_total(a.drop_first(), b.drop_first());
            if a.drop_first() == b.drop_first() {
                assert(a =~= seq![a[0]] + a.drop_first());
                assert(b =~= seq![b[0]] + b.drop_first());
            }
        }
    } else if a.len() == 0 && b.len() == 0 {
        assert(a =~= b);
    }
}

pub proof fn lemma_text_lt_transitive(a: Seq<char>, b: Seq<char>, c: Seq<char>)
    requires
        text_lt(a, b),
        text_lt(b, c),
    ensures
        text_lt(a, c),
    decreases a.len(),
{
    if a.len() > 0 && b.len() > 0 && c.len() > 0 && a[0] == b[0] && b[0] == c[0] {
        lemma_text_lt_transitive(a.drop_first(), b.drop_first(), c.drop_first());
    }
}

/// Every entry comes before each later one.
pub open spec fn strictly_sorted(s: Seq<Seq<char>>) -> bool {
    forall|i: int, j: int| 0 <= i < j < s.len() ==> text_lt(#[trigger] s[i], #[trigger] s[j])
}

/// The ids that occur more than once.
pub open spec fn repeated_ids<T: Keyed>(items: Seq<T>) -> Set<Seq<char>> {
    Set::new(|k: Seq<char>| exists|i: int, j: int| 0 <= i < j < items.len() && #[trigger] items[i].key() == k && #[trigger] items[j].key() == k)
}

/// Two strictly sorted lists with the same entries are the same list.
pub proof fn lemma_sorted_unique(a: Seq<Seq<char>>, b: Seq<Seq<char>>)
    requires
        strictly_sorted(a),
        strictly_sorted(b),
        a.to_set() == b.to_set(),
    ensures
        a == b,
    decreases a.len(),
{
    if a.len() == 0 {
        if b.len() > 0 {
            assert(a.to_set().contains(b[0]));
        }
        assert(a =~= b);
    } else {
        assert(b.to_set().contains(a[0]));
        assert(b.len() > 0);
        assert(a.to_set().contains(b[0]));
        let k = choose|k: int| 0 <= k < b.len() && b[k] == a[0];
        let m = choose|m: int| 0 <= m < a.len() && a[m] == b[0];
        if k > 0 {
            assert(text_lt(b[0], b[k]));
            if m > 0 {
                assert(text_lt(a[0], a[m]));
                lemma_text_lt_asymmetric(a[0], a[m]);
            } else {
                lemma_text_lt_irreflexive(a[0]);
            }
        }
        assert(a[0] == b[0]);
        let a1 = a.drop_first();
        let b1 = b.drop_first();
        assert forall|x: Seq<char>| a1.to_set().contains(x) == b1.to_set().contains(x) by {
            if a1.to_set().contains(x) {
                let i = choose|i: int| 0 <= i < a1.len() && a1[i] == x;
                assert(text_lt(a[0], a[i + 1]));
                assert(a.to_set().contains(x));
                assert(b.to_set().contains(x));
                let j = choose|j: int| 0 <= j < b.len() && b[j] == x;
                if j == 0 {
                    lemma_text_lt_irreflexive(x);
                }
                assert(b1[j - 1] == x);
            }
            if b1.to_set().contains(x) {
                let i = choose|i: int| 0 <= i < b1.len() && b1[i] == x;
                assert(text_lt(b[0], b[i + 1]));
                assert(b.to_set().contains(x));
                assert(a.to_set().contains(x));
                let j = choose|j: int| 0 <= j < a.len() && a[j] == x;
                if j == 0 {
                    lemma_text_lt_irreflexive(x);
                }
                assert(a1[j - 1] == x);
            }
        }
        assert(a1.to_set() =~= b1.to_set());
        lemma_sorted_unique(a1, b1);
        assert(a =~= seq![a[0]] + a1);
        assert(b =~= seq![b[0]] + b1);
    }
}

/// The repeated ids in sorted order, each once.
pub open spec fn sorted_repeats<T: Keyed>(items: Seq<T>) -> Seq<Seq<char>> {
    choose|s: Seq<Seq<char>>| strictly_sorted(s) && s.to_set() == repeated_ids(items)
}

pub open spec fn texts_view(v: Seq<String>) -> Seq<Seq<char>> {
    v.map_values(|s: String| s@)
}

proof fn lemma_text_lt_skip(a: Seq<char>, b: Seq<char>, i: int)
    requires
        0 <= i <= a.len(),
        i <= b.len(),
        a.take(i) == b.take(i),
    ensures
        text_lt(a, b) == text_lt(a.skip(i), b.skip(i)),
    decreases i,
{
    if i > 0 {
        assert(a[0] == a.take(i)[0]);
        assert(b[0] == b.take(i)[0]);
        assert(a.drop_first().take(i - 1) =~= a.take(i).drop_first());
        assert(b.drop_first().take(i - 1) =~= b.take(i).drop_first());
        lemma_text_lt_skip(a.drop_first(), b.drop_first(), i - 1);
        assert(a.drop_first().skip(i - 1) =~= a.skip(i));
        assert(b.drop_first().skip(i - 1) =~= b.skip(i));
    } else {
        assert(a.skip(0) =~= a);
        assert(b.skip(0) =~= b);
    }
}

/// Whether `a` comes before `b` in text order.
pub fn text_before(a: &str, b: &str) -> (r: bool)
    ensures
        r == text_lt(a@, b@),
{
    let n = a.unicode_len();
    let m = b.unicode_len();
    let mut i: usize = 0;
    while i < n && i < m && a.get_char(i) == b.get_char(i)
        invariant
            n == a@.len(),
            m == b@.len(),
            i <= n,
            i <= m,
            a@.take(i as int) == b@.take(i as int),
        decreases n - i,
    {
        proof {
            assert(a@.take(i as int + 1) =~= a@.take(i as int).push(a@[i as int]));
            assert(b@.take(i as int + 1) =~= b@.take(i as int).push(b@[i as int]));
        }
        i += 1;
    }
    proof {
        lemma_text_lt_skip(a@, b@, i as int);
    }
    if i == n {
        i < m
    } else if i == m {
        false
    } else {
        a.get_char(i) < b.get_char(i)
    }
}

fn insert_sorted(v: &mut Vec<String>, x: &str)
    requires
        strictly_sorted(texts_view(old(v)@)),
    ensures
        strictly_sorted(texts_view(final(v)@)),
        texts_view(final(v)@).to_set() == texts_view(old(v)@).to_set().insert(x@),
{
    let ghost w = texts_view(v@);
    let mut p: usize = 0;
    while p < v.len() && text_before(v[p].as_str(), x)
        invariant
            p <= v@.len(),
            w == texts_view(v@),
            v@ == old(v)@,
            forall|q: int| 0 <= q < p ==> text_lt(#[trigger] w[q], x@),
        decreases v.len() - p,
    {
        p += 1;
    }
    if p < v.len() && crate::text::same_text(v[p].as_str(), x) {
        proof {
            assert(w[p as int] == x@);
            assert(w.contains(x@));
            assert(w.to_set().contains(x@));
            assert(w.to_set().insert(x@) =~= w.to_set());
        }
        return;
    }
    proof {
        if p < w.len() {
            lemma_text_lt_total(w[p as int], x@);
            assert(text_lt(x@, w[p as int]));
            assert forall|q: int| p <= q < w.len() implies text_lt(x@, #[trigger] w[q]) by {
                if q > p {
                    lemma_text_lt_transitive(x@, w[p as int], w[q]);
                }
            }
        }
    }
    v.insert(p, String::from_str(x));
    proof {
        let nw = texts_view(v@);
        assert(nw =~= w.insert(p as int, x@));
        assert forall|i: int, j: int| 0 <= i < j < nw.len() implies text_lt(#[trigger] nw[i], #[trigger] nw[j]) by {
            if j < p {
            } else if j == p {
            } else if i < p {
                assert(nw[j] == w[j - 1]);
                if j - 1 >= p {
                }
            } else if i == p {
            } else {
                assert(nw[i] == w[i - 1]);
                assert(nw[j] == w[j - 1]);
            }
        }
        assert forall|y: Seq<char>| nw.to_set().contains(y) == w.to_set().insert(x@).contains(y) by {
            if nw.to_set().contains(y) {
                let k = choose|k: int| 0 <= k < nw.len() && nw[k] == y;
                if k < p {
                    assert(w[k] == y);
                } else if k > p {
                    assert(w[k - 1] == y);
                }
            }
            if w.to_set().contains(y) {
                let k = choose|k: int| 0 <= k < w.len() && w[k] == y;
                if k < p {
                    assert(nw[k] == y);
                } else {
                    assert(nw[k + 1] == y);
                }
            }
            if y == x@ {
                assert(nw[p as int] == y);
            }
        }
        assert(nw.to_set() =~= w.to_set().insert(x@));
    }
}

proof fn lemma_repeated_step<T: Keyed>(items: Seq<T>, j: int, seen: bool)
    requires
        0 <= j < items.len(),
        seen == exists|i: int| 0 <= i < j && #[trigger] items[i].key() == items[j].key(),
    ensures
        repeated_ids(items.take(j + 1)) == if seen {
            repeated_ids(items.take(j)).insert(items[j].key())
        } else {
            repeated_ids(items.take(j))
        },
{
    let a = items.take(j + 1);
    let b = items.take(j);
    let target = if seen { repeated_ids(b).insert(items[j].key()) } else { repeated_ids(b) };
    assert forall|k: Seq<char>| repeated_ids(a).contains(k) == target.contains(k) by {
        if repeated_ids(a).contains(k) {
            let (x, y) = choose|x: int, y: int| 0 <= x < y < a.len() && #[trigger] a[x].key() == k && #[trigger] a[y].key() == k;
            if y < j {
                assert(b[x].key() == k && b[y].key() == k);
                assert(repeated_ids(b).contains(k));
            } else {
                assert(items[x].key() == items[j].key());
            }
        }
        if repeated_ids(b).contains(k) {
            let (x, y) = choose|x: int, y: int| 0 <= x < y < b.len() && #[trigger] b[x].key() == k && #[trigger] b[y].key() == k;
            assert(a[x].key() == k && a[y].key() == k);
        }
        if seen && k == items[j].key() {
            let x = choose|x: int| 0 <= x < j && #[trigger] items[x].key() == items[j].key();
            assert(a[x].key() == k && a[j].key() == k);
        }
    }
    assert(repeated_ids(a) =~= target);
}

/// The ids repeated in `items`, sorted, each once.
pub fn sorted_repeated_ids<T: Keyed>(items: &Vec<T>) -> (v: Vec<String>)
    ensures
        texts_view(v@) == sorted_repeats(items@),
        strictly_sorted(texts_view(v@)),
        texts_view(v@).to_set() == repeated_ids(items@),
{
    let mut v: Vec<String> = Vec::new();
    let mut j: usize = 0;
    proof {
        assert(repeated_ids(items@.take(0)) =~= Set::<Seq<char>>::empty());
        assert(texts_view(v@).to_set() =~= Set::<Seq<char>>::empty());
    }
    while j < items.len()
        invariant
            j <= items@.len(),
            strictly_sorted(texts_view(v@)),
            texts_view(v@).to_set() == repeated_ids(items@.take(j as int)),
        decreases items.len() - j,
    {
        let kj = items[j].key_text();
        let mut seen = false;
        let mut i: usize = 0;
        while i < j
            invariant
                i <= j,
                j < items@.len(),
                kj@ == items@[j as int].key(),
                seen == exists|x: int| 0 <= x < i && #[trigger] items@[x].key() == items@[j as int].key(),
            decreases j - i,
        {
            if crate::text::same_text(items[i].key_text(), kj) {
                seen = true;
            }
            i += 1;
        }
        proof {
            lemma_repeated_step(items@, j as int, seen);
        }
        if seen {
            insert_sorted(&mut v, kj);
        }
        j += 1;
    }
    proof {
        assert(items@.take(items@.len() as int) =~= items@);
        let s = sorted_repeats(items@);
        assert(strictly_sorted(s) && s.to_set() == repeated_ids(items@));
        lemma_sorted_unique(s, texts_view(v@));
    }
    v
}

/// Every floor comes before each later one.
pub open spec fn floors_sorted(s: Seq<u32>) -> bool {
    forall|i: int, j: int| 0 <= i < j < s.len() ==> #[trigger] s[i] < #[trigger] s[j]
}

/// The floors that occur more than once.
pub open spec fn repeated_floors<T: FloorKeyed>(items: Seq<T>) -> Set<u32> {
    Set::new(|f: u32| exists|i: int, j: int| 0 <= i < j < items.len() && #[trigger] items[i].floor_key() == f && #[trigger] items[j].floor_key() == f)
}

pub open spec fn sorted_repeated_floor_list<T: FloorKeyed>(items: Seq<T>) -> Seq<u32> {
    choose|s: Seq<u32>| floors_sorted(s) && s.to_set() == repeated_floors(items)
}

proof fn lemma_floors_unique(a: Seq<u32>, b: Seq<u32>)
    requires
        floors_sorted(a),
        floors_sorted(b),
        a.to_set() == b.to_set(),
    ensures
        a == b,
    decreases a.len(),
{
    if a.len() == 0 {
        if b.len() > 0 {
            assert(b.to_set().contains(b[0]));
        }
        assert(a =~= b);
    } else {
        assert(a.to_set().contains(a[0]));
        assert(b.len() > 0);
        assert(b.to_set().contains(b[0]));
        let k = choose|k: int| 0 <= k < b.len() && b[k] == a[0];
        let m = choose|m: int| 0 <= m < a.len() && a[m] == b[0];
        if k > 0 {
            assert(b[0] < b[k]);
            if m > 0 {
                assert(a[0] < a[m]);
            }
        }
        assert(a[0] == b[0]);
        let a1 = a.drop_first();
        let b1 = b.drop_first();
        assert forall|x: u32| a1.to_set().contains(x) == b1.to_set().contains(x) by {
            if a1.to_set().contains(x) {
                let i = choose|i: int| 0 <= i < a1.len() && a1[i] == x;
                assert(a[0] < a[i + 1]);
                assert(a.to_set().contains(x));
                let j = choose|j: int| 0 <= j < b.len() && b[j] == x;
                assert(b1[j - 1] == x);
            }
            if b1.to_set().contains(x) {
                let i = choose|i: int| 0 <= i < b1.len() && b1[i] == x;
                assert(b[0] < b[i + 1]);
                assert(b.to_set().contains(x));
                let j = choose|j: int| 0 <= j < a.len() && a[j] == x;
                assert(a1[j - 1] == x);
            }
        }
        assert(a1.to_set() =~= b1.to_set());
        lemma_floors_unique(a1, b1);
        assert(a =~= seq![a[0]] + a1);
        assert(b =~= seq![b[0]] + b1);
    }
}

proof fn lemma_repeated_floor_step<T: FloorKeyed>(items: Seq<T>, j: int, seen: bool)
    requires
        0 <= j < items.len(),
        seen == exists|i: int| 0 <= i < j && #[trigger] items[i].floor_key() == items[j].floor_key(),
    ensures
        repeated_floors(items.take(j + 1)) == if seen {
            repeated_floors(items.take(j)).insert(items[j].floor_key())
        } else {
            repeated_floors(items.take(j))
        },
{
    let a = items.take(j + 1);
    let b = items.take(j);
    let target = if seen { repeated_floors(b).insert(items[j].floor_key()) } else { repeated_floors(b) };
    assert forall|k: u32| repeated_floors(a).contains(k) == target.contains(k) by {
        if repeated_floors(a).contains(k) {
            let (x, y) = choose|x: int, y: int| 0 <= x < y < a.len() && #[trigger] a[x].floor_key() == k && #[trigger] a[y].floor_key() == k;
            if y < j {
                assert(b[x].floor_key() == k && b[y].floor_key() == k);
                assert(repeated_floors(b).contains(k));
            } else {
                assert(items[x].floor_key() == items[j].floor_key());
            }
        }
        if repeated_floors(b).contains(k) {
            let (x, y) = choose|x: int, y: int| 0 <= x < y < b.len() && #[trigger] b[x].floor_key() == k && #[trigger] b[y].floor_key() == k;
            assert(a[x].floor_key() == k && a[y].floor_key() == k);
        }
        if seen && k == items[j].floor_key() {
            let x = choose|x: int| 0 <= x < j && #[trigger] items[x].floor_key() == items[j].floor_key();
            assert(a[x].floor_key() == k && a[j].floor_key() == k);
        }
    }
    assert(repeated_floors(a) =~= target);
}

fn insert_floor(v: &mut Vec<u32>, x: u32)
    requires
        floors_sorted(old(v)@),
    ensures
        floors_sorted(final(v)@),
        final(v)@.to_set() == old(v)@.to_set().insert(x),
{
    let ghost w = v@;
    let mut p: usize = 0;
    while p < v.len() && v[p] < x
        invariant
            p <= v@.len(),
            v@ == w,
            w == old(v)@,
            forall|q: int| 0 <= q < p ==> #[trigger] w[q] < x,
        decreases v.len() - p,
    {
        p += 1;
    }
    if p < v.len() && v[p] == x {
        proof {
            assert(w.contains(x));
            assert(w.to_set().insert(x) =~= w.to_set());
        }
        return;
    }
    v.insert(p, x);
    proof {
        let nw = v@;
        assert(nw =~= w.insert(p as int, x));
        assert forall|i: int, j: int| 0 <= i < j < nw.len() implies #[trigger] nw[i] < #[trigger] nw[j] by {
            if j < p {
            } else if j == p {
            } else if i < p {
                assert(nw[j] == w[j - 1]);
                assert(w[p as int] > x);
            } else if i == p {
                assert(nw[j] == w[j - 1]);
                assert(w[p as int] > x);
            } else {
                assert(nw[i] == w[i - 1]);
                assert(nw[j] == w[j - 1]);
            }
        }
        assert forall|y: u32| nw.to_set().contains(y) == w.to_set().insert(x).contains(y) by {
            if nw.to_set().contains(y) {
                let k = choose|k: int| 0 <= k < nw.len() && nw[k] == y;
                if k < p {
                    assert(w[k] == y);
                } else if k > p {
                    assert(w[k - 1] == y);
                }
            }
            if w.to_set().contains(y) {
                let k = choose|k: int| 0 <= k < w.len() && w[k] == y;
                if k < p {
                    assert(nw[k] == y);
                } else {
                    assert(nw[k + 1] == y);
                }
            }
            if y == x {
                assert(nw[p as int] == y);
            }
        }
        assert(nw.to_set() =~= w.to_set().insert(x));
    }
}

/// The floors repeated in `items`, sorted, each once.
pub fn sorted_repeated_floors<T: FloorKeyed>(items: &Vec<T>) -> (v: Vec<u32>)
    ensures
        v@ == sorted_repeated_floor_list(items@),
        floors_sorted(v@),
        v@.to_set() == repeated_floors(items@),
{
    let mut v: Vec<u32> = Vec::new();
    let mut j: usize = 0;
    proof {
        assert(repeated_floors(items@.take(0)) =~= Set::<u32>::empty());
        assert(v@.to_set() =~= Set::<u32>::empty());
    }
    while j < items.len()
        invariant
            j <= items@.len(),
            floors_sorted(v@),
            v@.to_set() == repeated_floors(items@.take(j as int)),
        decreases items.len() - j,
    {
        let fj = items[j].floor_number();
        let mut seen = false;
        let mut i: usize = 0;
        while i < j
            invariant
                i <= j,
                j < items@.len(),
                fj == items@[j as int].floor_key(),
                seen == exists|x: int| 0 <= x < i && #[trigger] items@[x].floor_key() == items@[j as int].floor_key(),
            decreases j - i,
        {
            if items[i].floor_number() == fj {
                seen = true;
            }
            i += 1;
        }
        proof {
            lemma_repeated_floor_step(items@, j as int, seen);
        }
        if seen {
            insert_floor(&mut v, fj);
        }
        j += 1;
    }
    proof {
        assert(items@.take(items@.len() as int) =~= items@);
        let s = sorted_repeated_floor_list(items@);
        assert(floors_sorted(s) && s.to_set() == repeated_floors(items@));
        lemma_floors_unique(s, v@);
    }
    v
}

/// Entries joined with ", ".
pub open spec fn comma_list(s: Seq<Seq<char>>) -> Seq<char>
    decreases s.len(),
{
    if s.len() == 0 {
        Seq::empty()
    } else if s.len() == 1 {
        s[0]
    } else {
        comma_list(s.drop_last()) + ", "@ + s.last()
    }
}

pub open spec fn floor_texts(s: Seq<u32>) -> Seq<Seq<char>> {
    s.map_values(|f: u32| crate::text::decimal(f as nat))
}

fn join_list(v: &Vec<String>) -> (s: String)
    ensures
        s@ == comma_list(texts_view(v@)),
{
    let ghost w = texts_view(v@);
    let mut s = String::new();
    let mut i: usize = 0;
    while i < v.len()
        invariant
            i <= v@.len(),
            w == texts_view(v@),
            s@ == comma_list(w.take(i as int)),
        decreases v.len() - i,
    {
        assert(w.take(i as int + 1).drop_last() =~= w.take(i as int));
        if i > 0 {
            s.append(", ");
        } else {
            assert(w.take(1).len() == 1);
            assert(w.take(0).len() == 0);
            assert(s@.len() == 0);
        }
        let ghost before = s@;
        s.append(v[i].as_str());
        proof {
            if i == 0 {
                assert(w.take(1)[0] == w[0]);
                assert(s@ =~= before + w[0]);
                assert(before + w[0] =~= w[0]);
            }
        }
        i += 1;
    }
    assert(w.take(i as int) =~= w);
    s
}

fn join_floors(v: &Vec<u32>) -> (s: String)
    ensures
        s@ == comma_list(floor_texts(v@)),
{
    let ghost w = floor_texts(v@);
    let mut s = String::new();
    let mut i: usize = 0;
    while i < v.len()
        invariant
            i <= v@.len(),
            w == floor_texts(v@),
            s@ == comma_list(w.take(i as int)),
        decreases v.len() - i,
    {
        assert(w.take(i as int + 1).drop_last() =~= w.take(i as int));
        if i > 0 {
            s.append(", ");
        } else {
            assert(w.take(1).len() == 1);
            assert(w.take(0).len() == 0);
            assert(s@.len() == 0);
        }
        let ghost before = s@;
        let n = crate::text::decimal_text(v[i] as u64);
        s.append(n.as_str());
        proof {
            if i == 0 {
                assert(w.take(1)[0] == w[0]);
                assert(s@ =~= before + w[0]);
                assert(before + w[0] =~= w[0]);
            }
        }
        i += 1;
    }
    assert(w.take(i as int) =~= w);
    s
}

/// The report of repeated ids of one kind, if there are any.
pub open spec fn repeats_line<T: Keyed>(kind: Seq<char>, items: Seq<T>) -> Option<Seq<char>> {
    if sorted_repeats(items).len() > 0 {
        Some("Duplicate "@ + kind + " id(s): "@ + comma_list(sorted_repeats(items)))
    } else {
        None
    }
}

/// The report of repeated floors, if there are any.
pub open spec fn floor_repeats_line<T: FloorKeyed>(items: Seq<T>) -> Option<Seq<char>> {
    if sorted_repeated_floor_list(items).len() > 0 {
        Some("Duplicate tower floor(s): "@ + comma_list(floor_texts(sorted_repeated_floor_list(items))))
    } else {
        None
    }
}

proof fn lemma_no_repeats_unique<T: Keyed>(items: Seq<T>, s: Seq<Seq<char>>)
    requires
        s.to_set() == repeated_ids(items),
        s.len() == 0,
    ensures
        keys_unique(items),
{
    assert forall|i: int, j: int| 0 <= i < items.len() && 0 <= j < items.len() && i != j implies items[i].key() != items[j].key() by {
        if items[i].key() == items[j].key() {
            let k = items[i].key();
            if i < j {
                assert(repeated_ids(items).contains(k));
            } else {
                assert(repeated_ids(items).contains(k));
            }
            assert(s.to_set().contains(k));
        }
    }
}

proof fn lemma_no_repeated_floors<T: FloorKeyed>(items: Seq<T>, s: Seq<u32>)
    requires
        s.to_set() == repeated_floors(items),
        s.len() == 0,
    ensures
        floors_unique(items),
{
    assert forall|i: int, j: int| 0 <= i < items.len() && 0 <= j < items.len() && i != j implies items[i].floor_key() != items[j].floor_key() by {
        if items[i].floor_key() == items[j].floor_key() {
            let k = items[i].floor_key();
            assert(repeated_floors(items).contains(k));
            assert(s.to_set().contains(k));
        }
    }
}

/// Reports the repeated ids of one kind; none when every id is unique.
pub fn check_repeats<T: Keyed>(kind: &str, items: &Vec<T>) -> (r: Option<String>)
    ensures
        match repeats_line(kind@, items@) {
            Some(m) => r matches Some(s) && s@ == m,
            None => r is None && keys_unique(items@),
        },
{
    let v = sorted_repeated_ids(items);
    if v.len() == 0 {
        proof {
            let s = sorted_repeats(items@);
            lemma_no_repeats_unique(items@, s);
        }
        return None;
    }
    let mut m = String::from_str("Duplicate ");
    m.append(kind);
    m.append(" id(s): ");
    let list = join_list(&v);
    m.append(list.as_str());
    Some(m)
}

/// Reports the repeated floors; none when every floor is unique.
pub fn check_floor_repeats<T: FloorKeyed>(items: &Vec<T>) -> (r: Option<String>)
    ensures
        match floor_repeats_line(items@) {
            Some(m) => r matches Some(s) && s@ == m,
            None => r is None && floors_unique(items@),
        },
{
    let v = sorted_repeated_floors(items);
    if v.len() == 0 {
        proof {
            let s = sorted_repeated_floor_list(items@);
            lemma_no_repeated_floors(items@, s);
        }
        return None;
    }
    let mut m = String::from_str("Duplicate tower floor(s): ");
    let list = join_floors(&v);
    m.append(list.as_str());
    Some(m)
}

/// Content whose ids are all different reports no repeats.
pub proof fn lemma_unique_no_repeats<T: Keyed>(kind: Seq<char>, items: Seq<T>)
    requires
        keys_unique(items),
    ensures
        repeats_line(kind, items) is None,
{
    assert(repeated_ids(items) =~= Set::<Seq<char>>::empty()) by {
        assert forall|k: Seq<char>| !repeated_ids(items).contains(k) by {
            if repeated_ids(items).contains(k) {
                let (i, j) = choose|i: int, j: int| 0 <= i < j < items.len() && #[trigger] items[i].key() == k && #[trigger] items[j].key() == k;
                assert(items[i].key() != items[j].key());
            }
        }
    }
    let e = Seq::<Seq<char>>::empty();
    assert(strictly_sorted(e) && e.to_set() =~= repeated_ids(items));
    let s = sorted_repeats(items);
    assert(strictly_sorted(s) && s.to_set() == repeated_ids(items));
    if s.len() > 0 {
        assert(s.to_set().contains(s[0]));
    }
}

/// Content whose floors are all different reports no repeats.
pub proof fn lemma_unique_no_repeated_floors<T: FloorKeyed>(items: Seq<T>)
    requires
        floors_unique(items),
    ensures
        floor_repeats_line(items) is None,
{
    assert(repeated_floors(items) =~= Set::<u32>::empty()) by {
        assert forall|k: u32| !repeated_floors(items).contains(k) by {
            if repeated_floors(items).contains(k) {
                let (i, j) = choose|i: int, j: int| 0 <= i < j < items.len() && #[trigger] items[i].floor_key() == k && #[trigger] items[j].floor_key() == k;
                assert(items[i].floor_key() != items[j].floor_key());
            }
        }
    }
    let e = Seq::<u32>::empty();
    assert(floors_sorted(e) && e.to_set() =~= repeated_floors(items));
    let s = sorted_repeated_floor_list(items);
    assert(floors_sorted(s) && s.to_set() == repeated_floors(items));
    if s.len() > 0 {
        assert(s.to_set().contains(s[0]));
    }
}

} // verus!
