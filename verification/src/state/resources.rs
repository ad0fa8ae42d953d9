//! Stockpiles of resources: the town ledger and expedition cargo.

use vstd::prelude::*;
use crate::arith::{clamp_i32, sat_add_i32};
use crate::data::game_data::{Keyed, first_keyed, find_keyed, lemma_first_keyed, lemma_first_keyed_update, lemma_first_keyed_push};

verus! {

pub struct ResourceStack {
    pub resource_id: String,
    pub amount: i32,
}

impl Keyed for ResourceStack {
    open spec fn key(&self) -> Seq<char> { self.resource_id@ }
    fn key_text(&self) -> (s: &str) { self.resource_id.as_str() }
}

/// The amount held of `id` in a list of stacks: the first stack with that id, or zero.
pub open spec fn stack_amount(stacks: Seq<ResourceStack>, id: Seq<char>) -> int {
    match first_keyed(stacks, id) {
        Some(i) => stacks[i].amount as int,
        None => 0,
    }
}

/// A list of stacks as (resource id, amount) pairs.
pub open spec fn stack_view(stacks: Seq<ResourceStack>) -> Seq<(Seq<char>, i32)> {
    stacks.map_values(|s: ResourceStack| (s.resource_id@, s.amount))
}

pub open spec fn has_id(id: Seq<char>) -> spec_fn((Seq<char>, i32)) -> bool {
    |e: (Seq<char>, i32)| e.0 == id
}

/// `amount` of `id` added to the first pair with that id, or appended as a new pair.
pub open spec fn add_stack_view(sv: Seq<(Seq<char>, i32)>, id: Seq<char>, amount: i32) -> Seq<(Seq<char>, i32)> {
    match crate::seqs::first_where(sv, has_id(id)) {
        Some(k) => sv.update(k, (id, clamp_i32(sv[k].1 + amount) as i32)),
        None => sv.push((id, amount)),
    }
}

/// How much of resource `id` a list of (id, amount) entries holds: the
/// amount of its first entry for `id`, or none.
pub open spec fn view_amount(sv: Seq<(Seq<char>, i32)>, id: Seq<char>) -> int {
    match crate::seqs::first_where(sv, has_id(id)) {
        Some(k) => sv[k].1 as int,
        None => 0,
    }
}

/// Adding an amount of a resource to a list of entries raises that
/// resource by the amount (saturating) and leaves every other as it was.
pub proof fn law_add_stack_view(sv: Seq<(Seq<char>, i32)>, id: Seq<char>, amount: i32, other: Seq<char>)
    ensures
        view_amount(add_stack_view(sv, id, amount), id) == clamp_i32(view_amount(sv, id) + amount),
        other != id ==> view_amount(add_stack_view(sv, id, amount), other) == view_amount(sv, other),
{
    let after = add_stack_view(sv, id, amount);
    crate::seqs::lemma_first_where(sv, has_id(id));
    crate::seqs::lemma_first_where(after, has_id(id));
    crate::seqs::lemma_first_where(sv, has_id(other));
    crate::seqs::lemma_first_where(after, has_id(other));
    match crate::seqs::first_where(sv, has_id(id)) {
        Some(k) => {
            assert forall|j: int| 0 <= j < sv.len() implies (#[trigger] after[j]).0 == sv[j].0 by {}
            if other != id {
                match (crate::seqs::first_where(sv, has_id(other)), crate::seqs::first_where(after, has_id(other))) {
                    (Some(a), Some(b)) => {
                        assert(after[a].0 == sv[a].0);
                        assert(after[b].0 == sv[b].0);
                        if a < b {
                            assert((has_id(other))(after[a]));
                        }
                        if b < a {
                            assert((has_id(other))(sv[b]));
                        }
                        assert(a == b);
                        assert(a != k);
                    },
                    (Some(a), None) => {
                        assert(after[a].0 == sv[a].0);
                    },
                    (None, Some(b)) => {
                        assert(after[b].0 == sv[b].0);
                    },
                    (None, None) => {},
                }
            }
            match crate::seqs::first_where(after, has_id(id)) {
                Some(b) => {
                    assert(after[b].0 == sv[b].0);
                    assert(after[k].0 == sv[k].0);
                    if b < k {
                        assert((has_id(id))(sv[b]));
                    }
                    if k < b {
                        assert((has_id(id))(after[k]));
                    }
                    assert(b == k);
                },
                None => {
                    assert(after[k].0 == id);
                },
            }
        },
        None => {
            assert(after == sv.push((id, amount)));
            assert(after[sv.len() as int].0 == id);
            match crate::seqs::first_where(after, has_id(id)) {
                Some(b) => {
                    if b < sv.len() {
                        assert(after[b] == sv[b]);
                    }
                },
                None => {},
            }
            if other != id {
                match (crate::seqs::first_where(sv, has_id(other)), crate::seqs::first_where(after, has_id(other))) {
                    (Some(a), Some(b)) => {
                        assert(after[a] == sv[a]);
                        if b < sv.len() {
                            assert(after[b] == sv[b]);
                        }
                    },
                    (Some(a), None) => {
                        assert(after[a] == sv[a]);
                    },
                    (None, Some(b)) => {
                        if b < sv.len() {
                            assert(after[b] == sv[b]);
                        }
                    },
                    (None, None) => {},
                }
            }
        },
    }
}

pub proof fn lemma_stack_view_first(stacks: Seq<ResourceStack>, id: Seq<char>)
    ensures
        first_keyed(stacks, id) == crate::seqs::first_where(stack_view(stacks), has_id(id)),
    decreases stacks.len(),
{
    if stacks.len() > 0 {
        lemma_stack_view_first(stacks.drop_last(), id);
        assert(stack_view(stacks).drop_last() =~= stack_view(stacks.drop_last()));
    }
}

/// Adds `amount` of `id` to a list of stacks: to the first stack with that id,
/// or as a new stack at the end.
pub fn add_to_stacks(stacks: &mut Vec<ResourceStack>, id: &str, amount: i32)
    ensures
        forall|k: Seq<char>| #[trigger] stack_amount(final(stacks)@, k) == if k == id@ {
            clamp_i32(stack_amount(old(stacks)@, k) + amount)
        } else {
            stack_amount(old(stacks)@, k)
        },
        match first_keyed(old(stacks)@, id@) {
            Some(i) => final(stacks)@.len() == old(stacks)@.len() && final(stacks)@ == old(stacks)@.update(
                i,
                ResourceStack { resource_id: old(stacks)@[i].resource_id, amount: clamp_i32(old(stacks)@[i].amount + amount) as i32 },
            ),
            None => final(stacks)@ == old(stacks)@.push(ResourceStack { resource_id: final(stacks)@.last().resource_id, amount }) && final(stacks)@.last().resource_id@ == id@,
        },
        stack_view(final(stacks)@) == add_stack_view(stack_view(old(stacks)@), id@, amount),
{
    proof {
        lemma_stack_view_first(stacks@, id@);
    }
    proof {
        lemma_first_keyed(stacks@, id@);
    }
    match find_keyed(stacks, id) {
        Some(i) => {
            let old_stacks = Ghost(stacks@);
            let current = stacks[i].amount;
            let rid = stacks[i].resource_id.clone();
            let updated = ResourceStack { resource_id: rid, amount: sat_add_i32(current, amount) };
            let ghost u = updated;
            stacks.set(i, updated);
            proof {
                assert(stacks@ == old_stacks@.update(i as int, u));
                assert(u.key() == old_stacks@[i as int].key());
                assert forall|k: Seq<char>| #[trigger] stack_amount(stacks@, k) == if k == id@ {
                    clamp_i32(stack_amount(old_stacks@, k) + amount)
                } else {
                    stack_amount(old_stacks@, k)
                } by {
                    lemma_first_keyed_update(old_stacks@, i as int, u, k);
                    lemma_first_keyed(old_stacks@, k);
                    lemma_first_keyed(old_stacks@, id@);
                    if k == id@ {
                        assert(first_keyed(stacks@, k) == Some(i as int));
                        assert(stacks@[i as int] == u);
                        assert(u.amount == clamp_i32(old_stacks@[i as int].amount + amount));
                    } else {
                        match first_keyed(old_stacks@, k) {
                            Some(t) => {
                                assert(t != i);
                                assert(stacks@[t] == old_stacks@[t]);
                            },
                            None => {},
                        }
                    }
                }
            }
        },
        None => {
            let old_stacks = Ghost(stacks@);
            let item = ResourceStack { resource_id: String::from_str(id), amount };
            let ghost it = item;
            stacks.push(item);
            proof {
                assert(it.key() == id@);
                assert forall|k: Seq<char>| #[trigger] stack_amount(stacks@, k) == if k == id@ {
                    clamp_i32(stack_amount(old_stacks@, k) + amount)
                } else {
                    stack_amount(old_stacks@, k)
                } by {
                    lemma_first_keyed_push(old_stacks@, it, k);
                    assert(stacks@ == old_stacks@.push(it));
                    assert(stacks@[old_stacks@.len() as int] == it);
                    lemma_first_keyed(old_stacks@, k);
                    if first_keyed(old_stacks@, k) is Some {
                        let t = first_keyed(old_stacks@, k).unwrap();
                        assert(stacks@[t] == old_stacks@[t]);
                    }
                }
            }
        },
    }
}

/// Every entry of `rs` added to a stack view in turn.
pub open spec fn add_stacks_view(sv: Seq<(Seq<char>, i32)>, rs: Seq<(Seq<char>, i32)>) -> Seq<(Seq<char>, i32)>
    decreases rs.len(),
{
    if rs.len() == 0 {
        sv
    } else {
        add_stack_view(add_stacks_view(sv, rs.drop_last()), rs.last().0, rs.last().1)
    }
}

/// Adds every stack of `rs` to `stacks`, in order.
pub fn add_all_stacks(stacks: &mut Vec<ResourceStack>, rs: &Vec<ResourceStack>)
    ensures
        stack_view(final(stacks)@) == add_stacks_view(stack_view(old(stacks)@), stack_view(rs@)),
{
    let ghost start = stack_view(stacks@);
    let ghost rv = stack_view(rs@);
    let mut j: usize = 0;
    while j < rs.len()
        invariant
            j <= rs@.len(),
            rv == stack_view(rs@),
            stack_view(stacks@) == add_stacks_view(start, rv.take(j as int)),
        decreases rs.len() - j,
    {
        assert(rv.take(j as int + 1).drop_last() =~= rv.take(j as int));
        add_to_stacks(stacks, rs[j].resource_id.as_str(), rs[j].amount);
        j += 1;
    }
    assert(rv.take(rv.len() as int) =~= rv);
}

/// An exact copy of a list of stacks.
pub fn duplicate_stacks(stacks: &Vec<ResourceStack>) -> (r: Vec<ResourceStack>)
    ensures
        r@ == stacks@,
{
    let mut out: Vec<ResourceStack> = Vec::new();
    let mut i: usize = 0;
    while i < stacks.len()
        invariant
            i <= stacks@.len(),
            out@ == stacks@.take(i as int),
        decreases stacks.len() - i,
    {
        out.push(ResourceStack { resource_id: stacks[i].resource_id.clone(), amount: stacks[i].amount });
        assert(out@ =~= stacks@.take(i as int + 1));
        i += 1;
    }
    assert(stacks@.take(stacks@.len() as int) =~= stacks@);
    out
}

/// Reads the amount of `id` held in a list of stacks.
pub fn stacks_amount(stacks: &Vec<ResourceStack>, id: &str) -> (r: i32)
    ensures
        r == stack_amount(stacks@, id@),
{
    match find_keyed(stacks, id) {
        Some(i) => stacks[i].amount,
        None => 0,
    }
}

/// The town's resource ledger.
pub struct ResourceLedger {
    pub stacks: Vec<ResourceStack>,
}


/// Every entry of `costs` is covered by the ledger.
pub open spec fn affordable(stacks: Seq<ResourceStack>, costs: Seq<(String, i32)>) -> bool {
    forall|i: int| 0 <= i < costs.len() ==> stack_amount(stacks, costs[i].0@) >= costs[i].1
}

/// The entries of `costs` that the ledger does not cover, in order.
pub open spec fn shortfall(stacks: Seq<ResourceStack>, costs: Seq<(String, i32)>) -> Seq<(String, i32)>
    decreases costs.len(),
{
    if costs.len() == 0 {
        Seq::empty()
    } else {
        let rest = shortfall(stacks, costs.drop_last());
        if stack_amount(stacks, costs.last().0@) >= costs.last().1 {
            rest
        } else {
            rest.push(costs.last())
        }
    }
}

/// No id occurs twice among the costs.
pub open spec fn distinct_costs(costs: Seq<(String, i32)>) -> bool {
    forall|i: int, j: int| 0 <= i < costs.len() && 0 <= j < costs.len() && i != j ==> costs[i].0@ != costs[j].0@
}

/// The cost charged against `id`: the amount of the entry naming it, or zero.
pub open spec fn cost_for(costs: Seq<(String, i32)>, id: Seq<char>) -> int
    decreases costs.len(),
{
    if costs.len() == 0 {
        0
    } else if costs.last().0@ == id {
        costs.last().1 as int
    } else {
        cost_for(costs.drop_last(), id)
    }
}

impl ResourceLedger {
    pub open spec fn spec_amount(&self, id: Seq<char>) -> int {
        stack_amount(self.stacks@, id)
    }

    pub fn new() -> (r: Self)
        ensures
            forall|k: Seq<char>| r.spec_amount(k) == 0,
    {
        ResourceLedger { stacks: Vec::new() }
    }

    pub fn amount(&self, id: &str) -> (r: i32)
        ensures
            r == self.spec_amount(id@),
    {
        stacks_amount(&self.stacks, id)
    }

    pub fn add(&mut self, id: &str, amount: i32)
        ensures
            forall|k: Seq<char>| #[trigger] final(self).spec_amount(k) == if k == id@ {
                clamp_i32(old(self).spec_amount(k) + amount)
            } else {
                old(self).spec_amount(k)
            },
            stack_view(final(self).stacks@) == add_stack_view(stack_view(old(self).stacks@), id@, amount),
    {
        add_to_stacks(&mut self.stacks, id, amount);
    }

    /// Pays `costs` when every entry is covered; otherwise changes nothing and
    /// returns the uncovered entries.
    pub fn spend(&mut self, costs: &[(String, i32)]) -> (r: Result<(), Vec<(String, i32)>>)
        requires
            distinct_costs(costs@),
            forall|i: int| 0 <= i < costs@.len() ==> costs@[i].1 >= 0,
        ensures
            affordable(old(self).stacks@, costs@) <==> r is Ok,
            r is Ok ==> forall|k: Seq<char>| #[trigger] final(self).spec_amount(k) == old(self).spec_amount(k) - cost_for(costs@, k),
            r matches Err(missing) ==> missing@ == shortfall(old(self).stacks@, costs@) && final(self).stacks@ == old(self).stacks@,
    {
        let mut missing: Vec<(String, i32)> = Vec::new();
        let mut i: usize = 0;
        while i < costs.len()
            invariant
                i <= costs@.len(),
                missing@ == shortfall(self.stacks@, costs@.take(i as int)),
                affordable(self.stacks@, costs@.take(i as int)) <==> missing@.len() == 0,
            decreases costs.len() - i,
        {
            assert(costs@.take(i as int + 1).drop_last() =~= costs@.take(i as int));
            let have = self.amount(costs[i].0.as_str());
            if have < costs[i].1 {
                let id = costs[i].0.clone();
                missing.push((id, costs[i].1));
                proof {
                    assert(missing@.last() == costs@[i as int]);
                }
            }
            proof {
                let prev = costs@.take(i as int);
                let next = costs@.take(i as int + 1);
                assert forall|t: int| 0 <= t < next.len() implies next[t] == costs@[t] by {}
                assert forall|t: int| 0 <= t < prev.len() implies prev[t] == costs@[t] by {}
                let cur = stack_amount(self.stacks@, costs@[i as int].0@) >= costs@[i as int].1;
                if affordable(self.stacks@, next) {
                    assert forall|t: int| 0 <= t < prev.len() implies stack_amount(self.stacks@, prev[t].0@) >= prev[t].1 by {
                        assert(next[t] == prev[t]);
                    }
                    assert(next[i as int] == costs@[i as int]);
                }
                if affordable(self.stacks@, prev) && cur {
                    assert forall|t: int| 0 <= t < next.len() implies stack_amount(self.stacks@, next[t].0@) >= next[t].1 by {
                        if t < i {
                            assert(prev[t] == next[t]);
                        }
                    }
                }
                assert(affordable(self.stacks@, next) == (affordable(self.stacks@, prev) && cur));
            }
            i += 1;
        }
        assert(costs@.take(costs@.len() as int) =~= costs@);
        if missing.len() > 0 {
            return Err(missing);
        }
        let ghost initial = self.stacks@;
        let mut j: usize = 0;
        while j < costs.len()
            invariant
                j <= costs@.len(),
                distinct_costs(costs@),
                forall|t: int| 0 <= t < costs@.len() ==> costs@[t].1 >= 0,
                affordable(initial, costs@),
                forall|k: Seq<char>| #[trigger] stack_amount(self.stacks@, k) == stack_amount(initial, k) - cost_for(costs@.take(j as int), k),
            decreases costs.len() - j,
        {
            assert(costs@.take(j as int + 1).drop_last() =~= costs@.take(j as int));
            proof {
                lemma_cost_for_absent(costs@.take(j as int), costs@[j as int].0@);
                assert forall|t: int| 0 <= t < costs@.take(j as int).len() implies costs@.take(j as int)[t].0@ != costs@[j as int].0@ by {
                    assert(costs@.take(j as int)[t] == costs@[t]);
                }
            }
            let ghost before = self.stacks@;
            let ghost before_ledger = *self;
            let amount = costs[j].1;
            self.add(costs[j].0.as_str(), -amount);
            proof {
                assert(costs@.take(j as int + 1).last() == costs@[j as int]);
                assert(stack_amount(initial, costs@[j as int].0@) >= costs@[j as int].1);
                assert forall|k: Seq<char>| #[trigger] stack_amount(self.stacks@, k) == stack_amount(initial, k) - cost_for(costs@.take(j as int + 1), k) by {
                    assert(self.spec_amount(k) == stack_amount(self.stacks@, k));
                    assert(before_ledger.spec_amount(k) == stack_amount(before, k));
                    if k == costs@[j as int].0@ {
                        lemma_stack_amount_range(initial, k);
                        assert(cost_for(costs@.take(j as int), k) == 0);
                        assert(cost_for(costs@.take(j as int + 1), k) == costs@[j as int].1);
                    } else {
                        assert(cost_for(costs@.take(j as int + 1), k) == cost_for(costs@.take(j as int), k));
                    }
                }
            }
            j += 1;
        }
        assert(costs@.take(costs@.len() as int) =~= costs@);
        Ok(())
    }
}

proof fn lemma_cost_for_absent(costs: Seq<(String, i32)>, id: Seq<char>)
    requires
        forall|t: int| 0 <= t < costs.len() ==> costs[t].0@ != id,
    ensures
        cost_for(costs, id) == 0,
    decreases costs.len(),
{
    if costs.len() > 0 {
        let prefix = costs.drop_last();
        assert forall|t: int| 0 <= t < prefix.len() implies prefix[t].0@ != id by {
            assert(prefix[t] == costs[t]);
        }
        lemma_cost_for_absent(prefix, id);
    }
}

proof fn lemma_stack_amount_range(stacks: Seq<ResourceStack>, id: Seq<char>)
    ensures
        i32::MIN <= stack_amount(stacks, id) <= i32::MAX,
{
    lemma_first_keyed(stacks, id);
}

} // verus!
