//! Run contracts: the goal a run works toward and the bonus it pays once.

use vstd::prelude::*;
use crate::data::game_data::GameData;
use crate::data::schema::{ResourceAmount, TowerContractDefinition, TowerContractTarget};
use crate::engine::combat_support::{add_rewards_view, reward_list, reward_entry};
use crate::state::resources::{stack_view, add_to_stacks};
use crate::state::tower_run::{TowerRunState, cargo_total};
use crate::text::signed_text;

verus! {

/// The contract a run works toward: its own id, or its goal's when it has none.
pub open spec fn effective_contract_id(run: TowerRunState) -> Seq<char> {
    if run.contract_id@.len() == 0 { run.goal.spec_contract_id() } else { run.contract_id@ }
}

/// How far the run has come on what the contract counts.
pub open spec fn spec_progress(run: TowerRunState, c: TowerContractDefinition) -> u32 {
    match c.target {
        TowerContractTarget::Eggs => run.found_eggs@.len() as u32,
        TowerContractTarget::Cargo => cargo_total(run.cargo@) as u32,
        TowerContractTarget::Steps => run.rooms_explored,
        TowerContractTarget::Floors => run.stats.floors_descended,
        TowerContractTarget::Landmarks => run.stats.landmarks_resolved,
        TowerContractTarget::HazardsCountered => run.stats.hazards_countered,
    }
}

fn progress(run: &TowerRunState, c: &TowerContractDefinition) -> (n: u32)
    ensures
        n == spec_progress(*run, *c),
{
    match c.target {
        TowerContractTarget::Eggs => run.found_eggs.len() as u32,
        TowerContractTarget::Cargo => run.cargo_amount() as u32,
        TowerContractTarget::Steps => run.rooms_explored,
        TowerContractTarget::Floors => run.stats.floors_descended,
        TowerContractTarget::Landmarks => run.stats.landmarks_resolved,
        TowerContractTarget::HazardsCountered => run.stats.hazards_countered,
    }
}

/// The run's contract and its progress, when the contract is known.
pub fn contract_progress<'a>(run: &TowerRunState, data: &'a GameData) -> (r: Option<(u32, &'a TowerContractDefinition)>)
    ensures
        match data.spec_tower_contract(effective_contract_id(*run)) {
            Some(c) => r matches Some((n, c2)) && *c2 == c && n == spec_progress(*run, c),
            None => r is None,
        },
{
    let c = if run.contract_id.as_str().is_empty() {
        data.tower_contract(run.goal.contract_id())
    } else {
        data.tower_contract(run.contract_id.as_str())
    };
    match c {
        Some(c) => Some((progress(run, c), c)),
        None => None,
    }
}

pub open spec fn amounts_view(rs: Seq<ResourceAmount>) -> Seq<(Seq<char>, i32)> {
    rs.map_values(|a: ResourceAmount| (a.resource_id@, a.amount))
}

pub open spec fn contract_line(data: GameData, c: TowerContractDefinition) -> Seq<char> {
    "Contract complete — "@ + c.name@ + ". Bonus secured: "@ + reward_list(data, amounts_view(c.rewards@)) + "."@
}

/// Whether refreshing pays the contract: it is not yet paid, it is known, and
/// the run has come far enough.
pub open spec fn contract_due(run: TowerRunState, data: GameData) -> bool {
    !run.contract_complete && match data.spec_tower_contract(effective_contract_id(run)) {
        Some(c) => spec_progress(run, c) >= c.target_amount,
        None => false,
    }
}

/// Pays the contract once it is met: its rewards go to the cargo and the run logs it.
pub fn refresh_contract(run: &mut TowerRunState, data: &GameData) -> (r: Option<String>)
    ensures
        final(run).contract_id@ == effective_contract_id(*old(run)),
        !contract_due(*old(run), *data) ==> r is None && *final(run) == (TowerRunState { contract_id: final(run).contract_id, ..*old(run) }),
        contract_due(*old(run), *data) ==> {
            let c = data.spec_tower_contract(effective_contract_id(*old(run))).unwrap();
            &&& *final(run) == (TowerRunState {
                contract_id: final(run).contract_id,
                contract_complete: true,
                cargo: final(run).cargo,
                event_log: final(run).event_log,
                ..*old(run)
            })
            &&& stack_view(final(run).cargo@) == add_rewards_view(stack_view(old(run).cargo@), c.rewards@)
            &&& r matches Some(s) && s@ == contract_line(*data, c) && final(run).event_log@ == old(run).event_log@.push(s)
        },
{
    if run.contract_id.as_str().is_empty() {
        run.contract_id = String::from_str(run.goal.contract_id());
    }
    if run.contract_complete {
        return None;
    }
    let c = match data.tower_contract(run.contract_id.as_str()) {
        Some(c) => c,
        None => {
            return None;
        },
    };
    if progress(run, c) < c.target_amount {
        return None;
    }
    run.contract_complete = true;
    let ghost start = stack_view(run.cargo@);
    let ghost rv = amounts_view(c.rewards@);
    let mut labels = String::new();
    let mut j: usize = 0;
    while j < c.rewards.len()
        invariant
            j <= c.rewards@.len(),
            rv == amounts_view(c.rewards@),
            stack_view(run.cargo@) == add_rewards_view(start, c.rewards@.take(j as int)),
            labels@ == reward_list(*data, rv.take(j as int)),
            run.contract_complete,
            run.contract_id@ == effective_contract_id(*old(run)),
            *run == (TowerRunState { contract_id: run.contract_id, contract_complete: true, cargo: run.cargo, ..*old(run) }),
        decreases c.rewards.len() - j,
    {
        assert(c.rewards@.take(j as int + 1).drop_last() =~= c.rewards@.take(j as int));
        assert(rv.take(j as int + 1).drop_last() =~= rv.take(j as int));
        assert(rv[j as int] == (c.rewards@[j as int].resource_id@, c.rewards@[j as int].amount));
        add_to_stacks(&mut run.cargo, c.rewards[j].resource_id.as_str(), c.rewards[j].amount);
        if j > 0 {
            labels.append(", ");
        }
        let n = signed_text(c.rewards[j].amount as i64);
        labels.append(n.as_str());
        labels.append(" ");
        labels.append(data.resource_name(c.rewards[j].resource_id.as_str()));
        j += 1;
    }
    assert(c.rewards@.take(c.rewards@.len() as int) =~= c.rewards@);
    assert(rv.take(rv.len() as int) =~= rv);
    let mut s = String::from_str("Contract complete — ");
    s.append(c.name.as_str());
    s.append(". Bonus secured: ");
    s.append(labels.as_str());
    s.append(".");
    run.add_event(s.clone());
    Some(s)
}

/// A contract pays its bonus once: a paid contract is complete, and a
/// complete contract is never due again, so checking it again pays nothing.
pub proof fn law_contract_pays_once(run: TowerRunState, paid: TowerRunState, data: GameData)
    requires
        contract_due(run, data),
        paid == (TowerRunState {
            contract_id: paid.contract_id,
            contract_complete: true,
            cargo: paid.cargo,
            event_log: paid.event_log,
            ..run
        }),
    ensures
        paid.contract_complete,
        !contract_due(paid, data),
{
}

} // verus!
