//! Town jobs: assigning monsters to work and what a day of work yields.

use vstd::prelude::*;
use crate::arith::{clamp_i32, clamp_u32, min_int, sat_add_i32, sat_add_u32};
use crate::data::game_data::GameData;
use crate::data::schema::{MonsterRole, PassiveSkill, TownSkill};
use crate::engine::combat_support::reward_list;
use crate::engine::monster_engine::{
    add_fatigue, commitment_label, committed_line, spec_add_fatigue, job_label, rest_needed_line, rest_needed_text, species_name, species_name_text,
    spec_job_label,
};
use crate::state::game::GameState;
use crate::state::records::ActivityEntry;
use crate::state::resources::{add_stack_view, add_stacks_view, has_id, law_add_stack_view, stack_view, view_amount};
use crate::state::eggs::{EggInstance, EggInventory};
use crate::state::keyed::first_numbered;
use crate::state::roster::{DailyCommitment, MonsterInstance, MonsterRoster};
use crate::state::town::{JobAssignment, TownJobKind, TownState};
use crate::text::{decimal, decimal_text, same_text, signed_text};

verus! {

/// What a job action reports.
pub struct JobResult {
    pub summary: String,
}

/// What one monster's day of work yields.
pub struct JobYield {
    pub resources: Vec<(String, i32)>,
    pub warmed_eggs: u32,
}

pub open spec fn pairs_view(v: Seq<(String, i32)>) -> Seq<(Seq<char>, i32)> {
    v.map_values(|p: (String, i32)| (p.0@, p.1))
}

/// A tired monster (fatigue four or more) yields one less of each resource,
/// but at least one, and warms one egg less when it would warm more than one.
pub open spec fn tired_amount(amount: i32, fatigue: u32) -> i32 {
    if fatigue < 4 { amount } else if amount - 1 >= 1 { (amount - 1) as i32 } else { 1 }
}

pub open spec fn tired_resources(rs: Seq<(Seq<char>, i32)>, fatigue: u32) -> Seq<(Seq<char>, i32)> {
    rs.map_values(|p: (Seq<char>, i32)| (p.0, tired_amount(p.1, fatigue)))
}

pub open spec fn tired_warmth(warmth: u32, fatigue: u32) -> u32 {
    if fatigue >= 4 && warmth > 1 { (warmth - 1) as u32 } else { warmth }
}

/// What a rested monster's job yields before fatigue: foraging gives herbs
/// (more for scouts and farmers) and coins (more for loot finders); quarrying
/// gives stone (more for tanks) and ore for stone finders; the workshop gives
/// wood and stone, and ore for heat or bramble burners; egg care warms one
/// egg, or two for hatchery helpers and hatchers.
pub open spec fn base_yield(m: MonsterInstance, job: TownJobKind) -> (Seq<(Seq<char>, i32)>, u32) {
    match job {
        TownJobKind::Forage => {
            let herbs = 2 + (if m.role == MonsterRole::Scout { 1int } else { 0 }) + (if m.town_skill == TownSkill::Farming { 1int } else { 0 });
            let coins = 3 + (if m.passive == PassiveSkill::FindsSmallLoot { 2int } else { 0 });
            (seq![("herbs"@, herbs as i32), ("coins"@, coins as i32)], 0)
        },
        TownJobKind::Quarry => {
            let stone = 3 + (if m.role == MonsterRole::Tank { 1int } else { 0 });
            let ore: Seq<(Seq<char>, i32)> = if m.passive == PassiveSkill::FindsStone { seq![("ore"@, 1i32)] } else { Seq::empty() };
            (seq![("stone"@, stone as i32)] + ore, 0)
        },
        TownJobKind::Workshop => {
            let heat = m.town_skill == TownSkill::WorkshopHeat || m.passive == PassiveSkill::BurnsBrambles;
            let ore: Seq<(Seq<char>, i32)> = if heat { seq![("ore"@, 1i32)] } else { Seq::empty() };
            (seq![("wood"@, 3i32), ("stone"@, 2i32)] + ore, 0)
        },
        TownJobKind::HatcheryCare => {
            let warm = if m.town_skill == TownSkill::Hatching || m.town_skill == TownSkill::HatcheryHelper { 2u32 } else { 1u32 };
            (Seq::empty(), warm)
        },
    }
}

/// What a monster's day of work yields: nothing while injured, otherwise the
/// job's yield lessened by fatigue.
pub open spec fn spec_job_yield(m: MonsterInstance, job: TownJobKind) -> (Seq<(Seq<char>, i32)>, u32) {
    if m.spec_injured() {
        (Seq::empty(), 0)
    } else {
        let b = base_yield(m, job);
        (tired_resources(b.0, m.condition.fatigue), tired_warmth(b.1, m.condition.fatigue))
    }
}

fn entry(id: &str, amount: i32) -> (p: (String, i32))
    ensures
        p.0@ == id@,
        p.1 == amount,
{
    (String::from_str(id), amount)
}

fn apply_fatigue_to_yield(result: &mut JobYield, fatigue: u32)
    ensures
        pairs_view(final(result).resources@) == tired_resources(pairs_view(old(result).resources@), fatigue),
        final(result).warmed_eggs == tired_warmth(old(result).warmed_eggs, fatigue),
{
    if fatigue < 4 {
        proof {
            assert(pairs_view(result.resources@) =~= tired_resources(pairs_view(result.resources@), fatigue));
        }
        return;
    }
    let ghost initial = pairs_view(result.resources@);
    let mut i: usize = 0;
    while i < result.resources.len()
        invariant
            i <= result.resources@.len(),
            result.resources@.len() == initial.len(),
            forall|j: int| 0 <= j < i ==> #[trigger] pairs_view(result.resources@)[j] == (initial[j].0, tired_amount(initial[j].1, fatigue)),
            forall|j: int| i <= j < initial.len() ==> #[trigger] pairs_view(result.resources@)[j] == initial[j],
            result.warmed_eggs == old(result).warmed_eggs,
            fatigue >= 4,
        decreases initial.len() - i,
    {
        let ghost before = result.resources@;
        let (id, amount) = result.resources.remove(i);
        let lowered: i32 = if amount >= 2 { amount - 1 } else { 1 };
        result.resources.insert(i, (id, lowered));
        proof {
            assert(result.resources@ =~= before.update(i as int, (id, lowered)));
            assert(pairs_view(before)[i as int] == initial[i as int]);
            assert(before[i as int] == (id, amount));
            assert(pairs_view(result.resources@)[i as int] == (id@, lowered));
            assert(forall|j: int| 0 <= j < initial.len() && j != i ==> #[trigger] pairs_view(result.resources@)[j] == pairs_view(before)[j]);
        }
        i += 1;
    }
    assert(pairs_view(result.resources@) =~= tired_resources(initial, fatigue));
    if result.warmed_eggs > 1 {
        result.warmed_eggs = result.warmed_eggs - 1;
    }
}

/// How much of resource `id` a list of yields holds, all entries for it added up.
pub open spec fn amount_of(rs: Seq<(Seq<char>, i32)>, id: Seq<char>) -> int
    decreases rs.len(),
{
    if rs.len() == 0 {
        0
    } else {
        amount_of(rs.drop_last(), id) + if rs.last().0 == id { rs.last().1 as int } else { 0int }
    }
}

/// Adding a list of yields to the ledger raises each resource by exactly
/// what the list holds of it, while nothing saturates.
pub proof fn law_add_yields(sv: Seq<(Seq<char>, i32)>, rs: Seq<(Seq<char>, i32)>, id: Seq<char>)
    requires
        view_amount(sv, id) >= 0,
        forall|k: int| 0 <= k < rs.len() ==> (#[trigger] rs[k]).1 >= 0,
        view_amount(sv, id) + amount_of(rs, id) <= i32::MAX,
    ensures
        view_amount(add_stacks_view(sv, rs), id) == view_amount(sv, id) + amount_of(rs, id),
    decreases rs.len(),
{
    if rs.len() > 0 {
        let prefix = rs.drop_last();
        assert forall|k: int| 0 <= k < prefix.len() implies (#[trigger] prefix[k]).1 >= 0 by {
            assert(prefix[k] == rs[k]);
        }
        assert(rs.last() == rs[rs.len() - 1]);
        lemma_amount_of_nonneg(prefix, id);
        law_add_yields(sv, prefix, id);
        law_add_stack_view(add_stacks_view(sv, prefix), rs.last().0, rs.last().1, id);
    }
}

proof fn lemma_amount_of_nonneg(rs: Seq<(Seq<char>, i32)>, id: Seq<char>)
    requires
        forall|k: int| 0 <= k < rs.len() ==> (#[trigger] rs[k]).1 >= 0,
    ensures
        amount_of(rs, id) >= 0,
    decreases rs.len(),
{
    if rs.len() > 0 {
        let prefix = rs.drop_last();
        assert forall|k: int| 0 <= k < prefix.len() implies (#[trigger] prefix[k]).1 >= 0 by {
            assert(prefix[k] == rs[k]);
        }
        assert(rs.last() == rs[rs.len() - 1]);
        lemma_amount_of_nonneg(prefix, id);
    }
}

/// A day of town work, for a monster that is neither injured nor tired
/// (fatigue under four): the workshop gives 3 wood and 2 stone, and 1 ore
/// with a heat skill or bramble burning; foraging gives 2 herbs (one more
/// for a scout, one more for a farmer) and 3 coins (two more for a finder of
/// small loot); quarrying gives 3 stone (4 for a tank) and 1 ore for a
/// stone finder; egg care gives no resources and warms one egg (two for a
/// hatcher or hatchery helper), where no other job warms any. A tired
/// monster yields one less of each resource (at least one); an injured one
/// yields nothing.
pub proof fn law_job_yields(m: MonsterInstance, job: TownJobKind, id: Seq<char>)
    ensures
        !m.spec_injured() && m.condition.fatigue < 4 ==> {
            let y = spec_job_yield(m, TownJobKind::Workshop);
            let heat = m.town_skill == TownSkill::WorkshopHeat || m.passive == PassiveSkill::BurnsBrambles;
            &&& amount_of(y.0, "wood"@) == 3
            &&& amount_of(y.0, "stone"@) == 2
            &&& amount_of(y.0, "ore"@) == if heat { 1int } else { 0int }
            &&& (id != "wood"@ && id != "stone"@ && id != "ore"@ ==> amount_of(y.0, id) == 0)
            &&& y.1 == 0
        },
        !m.spec_injured() && m.condition.fatigue < 4 ==> {
            let y = spec_job_yield(m, TownJobKind::Forage);
            &&& amount_of(y.0, "herbs"@) == 2 + (if m.role == MonsterRole::Scout { 1int } else { 0int })
                + (if m.town_skill == TownSkill::Farming { 1int } else { 0int })
            &&& amount_of(y.0, "coins"@) == 3 + (if m.passive == PassiveSkill::FindsSmallLoot { 2int } else { 0int })
            &&& (id != "herbs"@ && id != "coins"@ ==> amount_of(y.0, id) == 0)
            &&& y.1 == 0
        },
        !m.spec_injured() && m.condition.fatigue < 4 ==> {
            let y = spec_job_yield(m, TownJobKind::Quarry);
            &&& amount_of(y.0, "stone"@) == 3 + (if m.role == MonsterRole::Tank { 1int } else { 0int })
            &&& amount_of(y.0, "ore"@) == if m.passive == PassiveSkill::FindsStone { 1int } else { 0int }
            &&& (id != "stone"@ && id != "ore"@ ==> amount_of(y.0, id) == 0)
            &&& y.1 == 0
        },
        !m.spec_injured() && m.condition.fatigue < 4 ==> {
            let y = spec_job_yield(m, TownJobKind::HatcheryCare);
            &&& y.0.len() == 0
            &&& y.1 == if m.town_skill == TownSkill::Hatching || m.town_skill == TownSkill::HatcheryHelper { 2u32 } else { 1u32 }
        },
        !m.spec_injured() && m.condition.fatigue >= 4 ==> {
            let rested = spec_job_yield(MonsterInstance {
                condition: crate::state::roster::MonsterCondition { fatigue: 0, ..m.condition },
                ..m
            }, job);
            let tired = spec_job_yield(m, job);
            &&& tired.0.len() == rested.0.len()
            &&& forall|i: int| 0 <= i < tired.0.len() ==> (#[trigger] tired.0[i]).0 == rested.0[i].0
                && tired.0[i].1 == if rested.0[i].1 > 1 { rested.0[i].1 - 1 } else { 1 }
        },
        m.spec_injured() ==> spec_job_yield(m, job).0.len() == 0 && spec_job_yield(m, job).1 == 0,
{
    reveal_with_fuel(amount_of, 4);
    reveal_strlit("wood");
    reveal_strlit("stone");
    reveal_strlit("ore");
    reveal_strlit("herbs");
    reveal_strlit("coins");
    assert("wood"@ != "stone"@ && "wood"@ != "ore"@ && "stone"@ != "ore"@) by {
        assert("wood"@[0] != "stone"@[0] && "wood"@[0] != "ore"@[0] && "stone"@[0] != "ore"@[0]);
    }
    assert("herbs"@ != "coins"@) by {
        assert("herbs"@[0] != "coins"@[0]);
    }
    if !m.spec_injured() && m.condition.fatigue < 4 {
        let w = spec_job_yield(m, TownJobKind::Workshop).0;
        assert(w =~= base_yield(m, TownJobKind::Workshop).0);
        assert(w.drop_last().drop_last() =~= w.take(w.len() - 2));
        let f = spec_job_yield(m, TownJobKind::Forage).0;
        assert(f =~= base_yield(m, TownJobKind::Forage).0);
        let q = spec_job_yield(m, TownJobKind::Quarry).0;
        assert(q =~= base_yield(m, TownJobKind::Quarry).0);
    }
}

fn job_yield(m: &MonsterInstance, job: TownJobKind) -> (y: JobYield)
    ensures
        pairs_view(y.resources@) == spec_job_yield(*m, job).0,
        y.warmed_eggs == spec_job_yield(*m, job).1,
{
    if m.is_injured() {
        let y = JobYield { resources: Vec::new(), warmed_eggs: 0 };
        proof {
            assert(pairs_view(y.resources@) =~= Seq::<(Seq<char>, i32)>::empty());
        }
        return y;
    }
    let mut resources: Vec<(String, i32)> = Vec::new();
    let mut warmed_eggs: u32 = 0;
    match job {
        TownJobKind::Forage => {
            let herbs: i32 = 2 + (if m.role == MonsterRole::Scout { 1i32 } else { 0 }) + (if m.town_skill == TownSkill::Farming { 1i32 } else { 0 });
            let coins: i32 = 3 + (if m.passive == PassiveSkill::FindsSmallLoot { 2i32 } else { 0 });
            resources.push(entry("herbs", herbs));
            resources.push(entry("coins", coins));
        },
        TownJobKind::Quarry => {
            let stone: i32 = 3 + (if m.role == MonsterRole::Tank { 1i32 } else { 0 });
            resources.push(entry("stone", stone));
            if m.passive == PassiveSkill::FindsStone {
                resources.push(entry("ore", 1));
            }
        },
        TownJobKind::Workshop => {
            resources.push(entry("wood", 3));
            resources.push(entry("stone", 2));
            if m.town_skill == TownSkill::WorkshopHeat || m.passive == PassiveSkill::BurnsBrambles {
                resources.push(entry("ore", 1));
            }
        },
        TownJobKind::HatcheryCare => {
            warmed_eggs = if m.town_skill == TownSkill::Hatching || m.town_skill == TownSkill::HatcheryHelper { 2 } else { 1 };
        },
    }
    let mut y = JobYield { resources, warmed_eggs };
    proof {
        assert(pairs_view(y.resources@) =~= base_yield(*m, job).0);
    }
    apply_fatigue_to_yield(&mut y, m.condition.fatigue);
    y
}

fn cost_text(data: &GameData, cost: &Vec<(String, i32)>) -> (s: String)
    ensures
        s@ == reward_list(*data, pairs_view(cost@)),
{
    let ghost sv = pairs_view(cost@);
    let mut s = String::new();
    if cost.len() == 0 {
        proof {
            assert(s@ =~= reward_list(*data, sv));
        }
        return s;
    }
    let mut i: usize = 0;
    while i < cost.len()
        invariant
            i <= cost@.len(),
            sv == pairs_view(cost@),
            s@ == reward_list(*data, sv.take(i as int)),
        decreases cost.len() - i,
    {
        assert(sv.take(i as int + 1).drop_last() =~= sv.take(i as int));
        if i > 0 {
            s.append(", ");
        }
        let n = signed_text(cost[i].1 as i64);
        s.append(n.as_str());
        s.append(" ");
        s.append(data.resource_name(cost[i].0.as_str()));
        proof {
            if i == 0 {
                assert(sv.take(0) =~= Seq::<(Seq<char>, i32)>::empty());
                assert(sv.take(1).len() == 1);
            }
        }
        i += 1;
    }
    assert(sv.take(sv.len() as int) =~= sv);
    s
}

/// The parts of a yield's report: the resources, then the egg warmth.
pub open spec fn yield_parts(data: GameData, rs: Seq<(Seq<char>, i32)>, warmth: nat) -> Seq<Seq<char>> {
    (if rs.len() > 0 { seq![reward_list(data, rs)] } else { Seq::empty() })
        + (if warmth > 0 { seq![decimal(warmth) + " egg warmth"@] } else { Seq::empty() })
}

/// Parts joined with ", " (a report has at most two).
pub open spec fn joined_parts(parts: Seq<Seq<char>>) -> Seq<char> {
    if parts.len() == 0 {
        ""@
    } else if parts.len() == 1 {
        parts[0]
    } else {
        parts[0] + ", "@ + parts[1]
    }
}

fn parts_text(data: &GameData, rs: &Vec<(String, i32)>, warmth: u64) -> (s: String)
    ensures
        s@ == joined_parts(yield_parts(*data, pairs_view(rs@), warmth as nat)),
{
    proof {
        reveal_strlit("");
    }
    let ghost parts = yield_parts(*data, pairs_view(rs@), warmth as nat);
    let mut s = String::new();
    if rs.len() > 0 {
        s = cost_text(data, rs);
        if warmth > 0 {
            s.append(", ");
        }
    }
    if warmth > 0 {
        let n = decimal_text(warmth);
        s.append(n.as_str());
        s.append(" egg warmth");
    }
    proof {
        if rs.len() > 0 && warmth > 0 {
            assert(parts.len() == 2);
        } else if rs.len() > 0 {
            assert(parts =~= seq![reward_list(*data, pairs_view(rs@))]);
        } else if warmth > 0 {
            assert(parts =~= seq![decimal(warmth as nat) + " egg warmth"@]);
            assert(s@ =~= decimal(warmth as nat) + " egg warmth"@);
        } else {
            assert(parts =~= Seq::<Seq<char>>::empty());
        }
    }
    s
}

pub open spec fn spec_job_preview(m: MonsterInstance, data: GameData, job: TownJobKind) -> Seq<char> {
    let y = spec_job_yield(m, job);
    let parts = yield_parts(data, y.0, y.1 as nat);
    if y.0.len() == 0 && y.1 == 0 && m.spec_injured() {
        "Recovering; no job output."@
    } else if parts.len() == 0 {
        "Bond +1"@
    } else {
        joined_parts(parts) + "; Bond +1"@
    }
}

/// What a day of the job would yield for this monster.
pub fn job_preview(monster: &MonsterInstance, data: &GameData, job: TownJobKind) -> (s: String)
    ensures
        s@ == spec_job_preview(*monster, *data, job),
{
    let y = job_yield(monster, job);
    if y.resources.len() == 0 && y.warmed_eggs == 0 && monster.is_injured() {
        return String::from_str("Recovering; no job output.");
    }
    if y.resources.len() == 0 && y.warmed_eggs == 0 {
        proof {
            assert(yield_parts(*data, pairs_view(y.resources@), 0) =~= Seq::<Seq<char>>::empty());
        }
        return String::from_str("Bond +1");
    }
    let mut s = parts_text(data, &y.resources, y.warmed_eggs as u64);
    s.append("; Bond +1");
    s
}

pub open spec fn spec_job_detail(job: TownJobKind) -> Seq<char> {
    match job {
        TownJobKind::Forage => "Herbs and coins; scout traits boost."@,
        TownJobKind::Quarry => "Stone, with ore from stone traits."@,
        TownJobKind::Workshop => "Wood and stone; heat traits add ore."@,
        TownJobKind::HatcheryCare => "Warms eggs overnight; bond grows."@,
    }
}

/// One line on what a job produces.
pub fn job_detail(job: TownJobKind) -> (s: &'static str)
    ensures
        s@ == spec_job_detail(job),
{
    match job {
        TownJobKind::Forage => "Herbs and coins; scout traits boost.",
        TownJobKind::Quarry => "Stone, with ore from stone traits.",
        TownJobKind::Workshop => "Wood and stone; heat traits add ore.",
        TownJobKind::HatcheryCare => "Warms eggs overnight; bond grows.",
    }
}

pub open spec fn assigned_line(data: GameData, m: MonsterInstance, job: TownJobKind) -> Seq<char> {
    m.name@ + " the "@ + species_name(data, m.species_id@) + " is assigned to "@ + spec_job_label(job) + "."@
}

/// What putting a monster to work does, case by case.
pub open spec fn assign_outcome(old_state: GameState, new_state: GameState, data: GameData, monster_id: u64, job: TownJobKind, summary: Seq<char>) -> bool {
    &&& (old_state.town.spec_building_level("workshop"@) == 0 ==> new_state == old_state
        && summary == "Build the workshop before assigning town jobs."@)
    &&& (old_state.town.spec_building_level("workshop"@) != 0 ==> match old_state.monster_roster.spec_monster(monster_id) {
        None => new_state == old_state && summary == "That monster is no longer in the roster."@,
        Some(m) => if m.spec_injured() {
            new_state == old_state && summary == rest_needed_line(m.name@, m.condition.injury_days)
        } else if m.condition.commitment != DailyCommitment::Free {
            new_state == old_state && summary == committed_line(m.name@, m.condition.commitment)
        } else {
            &&& summary == assigned_line(data, m, job)
            &&& new_state.town.buildings == old_state.town.buildings
            &&& new_state.town.spec_monster_job(monster_id) == Some(job)
            &&& forall|other: u64| other != monster_id ==> #[trigger] new_state.town.spec_monster_job(other)
                == old_state.town.spec_monster_job(other)
            &&& new_state.activity_log.entries@ == old_state.activity_log.entries@.push(
                ActivityEntry { day: old_state.day, text: new_state.activity_log.entries@.last().text })
            &&& new_state.activity_log.entries@.last().text@ == summary
            &&& new_state == (GameState { town: new_state.town, activity_log: new_state.activity_log, ..old_state })
        },
    })
}

/// A job is given exactly when the workshop stands and the monster is in
/// the roster, uninjured and free today; then it holds that job and no
/// other monster's job changes. Otherwise nothing changes.
pub proof fn law_assign_job(s0: GameState, s1: GameState, data: GameData, monster_id: u64, job: TownJobKind, summary: Seq<char>)
    requires
        assign_outcome(s0, s1, data, monster_id, job, summary),
    ensures
        ({
            let ok = s0.town.spec_building_level("workshop"@) != 0
                && (s0.monster_roster.spec_monster(monster_id) matches Some(m)
                && m.condition.injury_days == 0 && m.condition.commitment == DailyCommitment::Free);
            &&& ok ==> s1.town.spec_monster_job(monster_id) == Some(job)
                && (forall|other: u64| other != monster_id ==> #[trigger] s1.town.spec_monster_job(other) == s0.town.spec_monster_job(other))
                && s1.monster_roster == s0.monster_roster && s1.resources == s0.resources
            &&& !ok ==> s1 == s0
        }),
{
}

/// Puts a rested, uncommitted monster to work at a town job; the workshop
/// must be built.
pub fn assign_job(state: &mut GameState, data: &GameData, monster_id: u64, job: TownJobKind) -> (r: JobResult)
    ensures
        assign_outcome(*old(state), *final(state), *data, monster_id, job, r.summary@),
{
    proof {
        reveal_strlit("workshop");
    }
    if state.town.building_level("workshop") == 0 {
        return JobResult { summary: String::from_str("Build the workshop before assigning town jobs.") };
    }
    let m = match state.monster_roster.monster(monster_id) {
        Some(m) => m,
        None => {
            return JobResult { summary: String::from_str("That monster is no longer in the roster.") };
        },
    };
    if m.is_injured() {
        return JobResult { summary: rest_needed_text(&m.name, m.condition.injury_days) };
    }
    if m.condition.commitment != DailyCommitment::Free {
        let mut s = m.name.clone();
        s.append(" is already committed to ");
        s.append(commitment_label(m.condition.commitment));
        s.append(" today.");
        return JobResult { summary: s };
    }
    let mut s = m.name.clone();
    s.append(" the ");
    let species = species_name_text(data, &m.species_id);
    s.append(species.as_str());
    s.append(" is assigned to ");
    s.append(job_label(job));
    s.append(".");
    state.town.set_monster_job(monster_id, job);
    let summary = s.clone();
    state.activity_log.add(state.day, s);
    JobResult { summary }
}

proof fn lemma_filter_keeps_all(asg: Seq<JobAssignment>, id: u64)
    requires
        forall|j: int| 0 <= j < asg.len() ==> asg[j].monster_id != id,
    ensures
        asg.filter(|a: JobAssignment| a.monster_id != id) == asg,
    decreases asg.len(),
{
    reveal(Seq::filter);
    if asg.len() > 0 {
        lemma_filter_keeps_all(asg.drop_last(), id);
        assert(asg.drop_last().push(asg.last()) =~= asg);
    }
}

/// What taking a monster off its job does, case by case.
pub open spec fn clear_outcome(old_state: GameState, new_state: GameState, monster_id: u64, summary: Seq<char>) -> bool {
    match old_state.monster_roster.spec_monster(monster_id) {
        None => new_state == old_state && summary == "That monster is no longer in the roster."@,
        Some(m) => if old_state.town.spec_monster_job(monster_id) is Some {
            &&& summary == m.name@ + " is resting from town work."@
            &&& new_state.town.buildings == old_state.town.buildings
            &&& new_state.town.assignments@ == old_state.town.assignments@.filter(|a: JobAssignment| a.monster_id != monster_id)
            &&& new_state.town.spec_monster_job(monster_id) is None
            &&& new_state.activity_log.entries@.last().text@ == summary
            &&& new_state.activity_log.entries@ == old_state.activity_log.entries@.push(
                ActivityEntry { day: old_state.day, text: new_state.activity_log.entries@.last().text })
            &&& new_state == (GameState { town: new_state.town, activity_log: new_state.activity_log, ..old_state })
        } else {
            &&& summary == m.name@ + " has no town job assigned."@
            &&& new_state.town.assignments@ == old_state.town.assignments@
            &&& new_state == (GameState { town: new_state.town, ..old_state })
            &&& new_state.town.buildings == old_state.town.buildings
        },
    }
}

/// Takes a monster off its town job.
pub fn clear_job(state: &mut GameState, monster_id: u64) -> (r: JobResult)
    ensures
        clear_outcome(*old(state), *final(state), monster_id, r.summary@),
{
    let name = match state.monster_roster.monster(monster_id) {
        Some(m) => m.name.clone(),
        None => {
            return JobResult { summary: String::from_str("That monster is no longer in the roster.") };
        },
    };
    let ghost before = state.town.assignments@;
    if state.town.clear_monster_job(monster_id) {
        let mut s = name;
        s.append(" is resting from town work.");
        let summary = s.clone();
        state.activity_log.add(state.day, s);
        JobResult { summary }
    } else {
        proof {
            crate::state::town::lemma_job_of(before, monster_id);
            lemma_filter_keeps_all(before, monster_id);
        }
        let mut s = name;
        s.append(" has no town job assigned.");
        JobResult { summary: s }
    }
}

/// How many of the first `j` eggs still need warming.
pub open spec fn ready_before(eggs: Seq<EggInstance>, j: int) -> nat
    decreases j,
{
    if j <= 0 {
        0
    } else {
        ready_before(eggs, j - 1) + if eggs[j - 1].days_remaining > 0 { 1nat } else { 0nat }
    }
}

/// Eggs after `warmth` units of warming: the first eggs that still need
/// warming each lose one day, one egg per unit.
pub open spec fn warmed_eggs(eggs: Seq<EggInstance>, warmth: nat) -> Seq<EggInstance> {
    eggs.map(|j: int, e: EggInstance| if e.days_remaining > 0 && ready_before(eggs, j) < warmth {
        EggInstance { days_remaining: (e.days_remaining - 1) as u32, ..e }
    } else {
        e
    })
}

/// How many eggs that warming reaches.
pub open spec fn warmed_count(eggs: Seq<EggInstance>, warmth: nat) -> nat {
    if ready_before(eggs, eggs.len() as int) < warmth { ready_before(eggs, eggs.len() as int) } else { warmth }
}

fn warm_eggs(eggs: &mut Vec<EggInstance>, warmth: u32) -> (warmed: u32)
    ensures
        final(eggs)@ == warmed_eggs(old(eggs)@, warmth as nat),
        warmed == warmed_count(old(eggs)@, warmth as nat),
{
    let ghost initial = eggs@;
    let mut left: u32 = warmth;
    let mut warmed: u32 = 0;
    let mut i: usize = 0;
    while i < eggs.len()
        invariant
            i <= initial.len(),
            eggs@.len() == initial.len(),
            warmed as nat == if ready_before(initial, i as int) < warmth { ready_before(initial, i as int) } else { warmth as nat },
            left == warmth - warmed,
            forall|j: int| 0 <= j < i ==> #[trigger] eggs@[j] == warmed_eggs(initial, warmth as nat)[j],
            forall|j: int| i <= j < initial.len() ==> #[trigger] eggs@[j] == initial[j],
        decreases initial.len() - i,
    {
        if left > 0 && eggs[i].days_remaining > 0 {
            let mut e = eggs.remove(i);
            e.days_remaining = e.days_remaining - 1;
            eggs.insert(i, e);
            left = left - 1;
            warmed = warmed + 1;
        }
        proof {
            assert(ready_before(initial, i as int + 1) == ready_before(initial, i as int)
                + if initial[i as int].days_remaining > 0 { 1nat } else { 0nat });
        }
        i += 1;
    }
    assert(eggs@ =~= warmed_eggs(initial, warmth as nat));
    warmed
}

fn add_total(totals: &mut Vec<(String, i32)>, id: &String, amount: i32)
    ensures
        pairs_view(final(totals)@) == add_stack_view(pairs_view(old(totals)@), id@, amount),
{
    let ghost sv = pairs_view(totals@);
    let mut i: usize = 0;
    while i < totals.len()
        invariant
            i <= totals@.len(),
            totals@ == old(totals)@,
            sv == pairs_view(totals@),
            crate::seqs::first_where(sv.take(i as int), has_id(id@)) is None,
        decreases totals.len() - i,
    {
        proof {
            crate::seqs::lemma_first_where_step(sv, has_id(id@), i as int);
        }
        if same_text(totals[i].0.as_str(), id.as_str()) {
            let (key, total) = totals.remove(i);
            let sum = sat_add_i32(total, amount);
            totals.insert(i, (key, sum));
            proof {
                assert(pairs_view(totals@) =~= sv.update(i as int, (id@, clamp_i32(sv[i as int].1 + amount) as i32)));
            }
            return;
        }
        i += 1;
    }
    proof {
        crate::seqs::lemma_first_where_done(sv, has_id(id@));
    }
    totals.push((id.clone(), amount));
    proof {
        assert(pairs_view(totals@) =~= sv.push((id@, amount)));
    }
}

/// The running state of a day of town work.
pub struct JobTally {
    pub stacks: Seq<(Seq<char>, i32)>,
    pub eggs: Seq<EggInstance>,
    pub monsters: Seq<MonsterInstance>,
    pub assignments: Seq<JobAssignment>,
    pub totals: Seq<(Seq<char>, i32)>,
    pub warmed: nat,
    pub workers: nat,
}

/// A worker after a day of work: one bond closer and one fatigue more.
pub open spec fn worked(m: MonsterInstance) -> MonsterInstance {
    spec_add_fatigue(MonsterInstance { bond: clamp_u32(m.bond + 1) as u32, ..m }, 1)
}

/// One assignment's day of work. An assignment whose monster has left the
/// roster is cleared; an injured monster does nothing; otherwise its yield
/// goes to the ledger and the day's totals, its warmth to the eggs, and the
/// worker gains bond and fatigue.
pub open spec fn job_step(t: JobTally, a: JobAssignment) -> JobTally {
    match first_numbered(t.monsters, a.monster_id) {
        None => JobTally { assignments: t.assignments.filter(|x: JobAssignment| x.monster_id != a.monster_id), ..t },
        Some(i) => {
            let m = t.monsters[i];
            if m.spec_injured() {
                t
            } else {
                let y = spec_job_yield(m, a.job);
                JobTally {
                    stacks: add_stacks_view(t.stacks, y.0),
                    totals: add_stacks_view(t.totals, y.0),
                    eggs: warmed_eggs(t.eggs, y.1 as nat),
                    warmed: t.warmed + warmed_count(t.eggs, y.1 as nat),
                    monsters: t.monsters.update(i, worked(m)),
                    workers: t.workers + 1,
                    ..t
                }
            }
        },
    }
}

/// A day's work on one assignment: an injured monster does nothing; any
/// other gains one bond and one fatigue (at most six) and its yield is
/// added to the ledger; an assignment whose monster is gone is dropped.
pub proof fn law_job_step(t: JobTally, a: JobAssignment)
    ensures
        first_numbered(t.monsters, a.monster_id) matches Some(i) ==> {
            let m = t.monsters[i];
            let after = job_step(t, a);
            &&& (m.spec_injured() ==> after == t)
            &&& (!m.spec_injured() ==> {
                &&& after.monsters[i].bond == clamp_u32(m.bond + 1)
                &&& after.monsters[i].condition.fatigue == min_int(m.condition.fatigue + 1, 6)
                &&& after.monsters[i].hp == m.hp
                &&& after.stacks == add_stacks_view(t.stacks, spec_job_yield(m, a.job).0)
                &&& after.workers == t.workers + 1
            })
        },
        first_numbered(t.monsters, a.monster_id) is None ==> job_step(t, a).monsters == t.monsters
            && job_step(t, a).assignments == t.assignments.filter(|x: JobAssignment| x.monster_id != a.monster_id),
{
    crate::state::keyed::lemma_first_numbered(t.monsters, a.monster_id);
}

/// Every assignment worked in order.
pub open spec fn jobs_run(t: JobTally, asg: Seq<JobAssignment>) -> JobTally
    decreases asg.len(),
{
    if asg.len() == 0 {
        t
    } else {
        job_step(jobs_run(t, asg.drop_last()), asg.last())
    }
}

/// A day with one rested, uninjured monster at the workshop adds 3 wood and
/// 2 stone to the ledger (and 1 ore with a heat skill or bramble burning).
pub proof fn law_workshop_day(t: JobTally, a: JobAssignment)
    requires
        a.job == TownJobKind::Workshop,
        first_numbered(t.monsters, a.monster_id) is Some,
        !t.monsters[first_numbered(t.monsters, a.monster_id).unwrap()].spec_injured(),
        t.monsters[first_numbered(t.monsters, a.monster_id).unwrap()].condition.fatigue < 4,
        0 <= view_amount(t.stacks, "wood"@) <= 1000000,
        0 <= view_amount(t.stacks, "stone"@) <= 1000000,
        0 <= view_amount(t.stacks, "ore"@) <= 1000000,
    ensures
        ({
            let after = jobs_run(t, seq![a]).stacks;
            let m = t.monsters[first_numbered(t.monsters, a.monster_id).unwrap()];
            let heat = m.town_skill == TownSkill::WorkshopHeat || m.passive == PassiveSkill::BurnsBrambles;
            &&& view_amount(after, "wood"@) == view_amount(t.stacks, "wood"@) + 3
            &&& view_amount(after, "stone"@) == view_amount(t.stacks, "stone"@) + 2
            &&& view_amount(after, "ore"@) == view_amount(t.stacks, "ore"@) + if heat { 1int } else { 0int }
        }),
{
    let m = t.monsters[first_numbered(t.monsters, a.monster_id).unwrap()];
    let y = spec_job_yield(m, TownJobKind::Workshop).0;
    assert(seq![a].drop_last() =~= Seq::<JobAssignment>::empty());
    assert(seq![a].last() == a);
    assert(jobs_run(t, Seq::<JobAssignment>::empty()) == t);
    assert(jobs_run(t, seq![a]) == job_step(jobs_run(t, seq![a].drop_last()), seq![a].last()));
    assert(jobs_run(t, seq![a]) == job_step(t, a));
    law_job_yields(m, TownJobKind::Workshop, "wood"@);
    assert forall|k: int| 0 <= k < y.len() implies (#[trigger] y[k]).1 >= 0 by {
        assert(y =~= base_yield(m, TownJobKind::Workshop).0);
    }
    law_add_yields(t.stacks, y, "wood"@);
    law_add_yields(t.stacks, y, "stone"@);
    law_add_yields(t.stacks, y, "ore"@);
}

/// How a day of town work reads: nothing when nobody worked.
pub open spec fn job_summary(data: GameData, t: JobTally) -> Seq<char> {
    let parts = yield_parts(data, t.totals, t.warmed);
    if t.workers == 0 {
        ""@
    } else if parts.len() == 0 {
        decimal(t.workers) + " town worker(s) gained bond while helping camp."@
    } else {
        "Town jobs produced "@ + joined_parts(parts) + "."@
    }
}

pub open spec fn start_tally(state: GameState) -> JobTally {
    JobTally {
        stacks: stack_view(state.resources.stacks@),
        eggs: state.egg_inventory.eggs@,
        monsters: state.monster_roster.monsters@,
        assignments: state.town.assignments@,
        totals: Seq::empty(),
        warmed: 0,
        workers: 0,
    }
}

/// The live state and running totals seen as a tally.
pub open spec fn tally_now(state: GameState, totals: Seq<(String, i32)>, warmed: u64, workers: u64) -> JobTally {
    JobTally {
        stacks: stack_view(state.resources.stacks@),
        eggs: state.egg_inventory.eggs@,
        monsters: state.monster_roster.monsters@,
        assignments: state.town.assignments@,
        totals: pairs_view(totals),
        warmed: warmed as nat,
        workers: workers as nat,
    }
}

/// Only the ledger, the eggs, the monsters and the job assignments differ.
pub open spec fn same_besides_work(a: GameState, b: GameState) -> bool {
    b == (GameState {
        resources: b.resources,
        egg_inventory: EggInventory { eggs: b.egg_inventory.eggs, ..a.egg_inventory },
        monster_roster: MonsterRoster { monsters: b.monster_roster.monsters, ..a.monster_roster },
        town: TownState { assignments: b.town.assignments, ..a.town },
        ..a
    })
}

proof fn lemma_yield_bounds(m: MonsterInstance, job: TownJobKind)
    ensures
        spec_job_yield(m, job).1 <= 2,
{
}

fn add_yield(state: &mut GameState, totals: &mut Vec<(String, i32)>, rs: &Vec<(String, i32)>)
    ensures
        stack_view(final(state).resources.stacks@) == add_stacks_view(stack_view(old(state).resources.stacks@), pairs_view(rs@)),
        pairs_view(final(totals)@) == add_stacks_view(pairs_view(old(totals)@), pairs_view(rs@)),
        *final(state) == (GameState { resources: final(state).resources, ..*old(state) }),
{
    let ghost rv = pairs_view(rs@);
    let ghost s0 = stack_view(state.resources.stacks@);
    let ghost t0 = pairs_view(totals@);
    let mut k: usize = 0;
    while k < rs.len()
        invariant
            k <= rs@.len(),
            rv == pairs_view(rs@),
            stack_view(state.resources.stacks@) == add_stacks_view(s0, rv.take(k as int)),
            pairs_view(totals@) == add_stacks_view(t0, rv.take(k as int)),
            *state == (GameState { resources: state.resources, ..*old(state) }),
        decreases rs.len() - k,
    {
        assert(rv.take(k as int + 1).drop_last() =~= rv.take(k as int));
        assert(rv.take(k as int + 1).last() == rv[k as int]);
        state.resources.add(rs[k].0.as_str(), rs[k].1);
        add_total(totals, &rs[k].0, rs[k].1);
        k += 1;
    }
    assert(rv.take(rv.len() as int) =~= rv);
}

fn work_assignment(state: &mut GameState, a: JobAssignment, totals: &mut Vec<(String, i32)>, warmed: &mut u64, workers: &mut u64)
    requires
        *old(warmed) <= 2 * *old(workers),
        *old(workers) < u64::MAX / 4,
    ensures
        tally_now(*final(state), final(totals)@, *final(warmed), *final(workers))
            == job_step(tally_now(*old(state), old(totals)@, *old(warmed), *old(workers)), a),
        same_besides_work(*old(state), *final(state)),
        *final(warmed) <= 2 * *final(workers),
        *final(workers) <= *old(workers) + 1,
{
    match state.monster_roster.position(a.monster_id) {
        None => {
            let ghost before = state.town.assignments@;
            state.town.clear_monster_job(a.monster_id);
            proof {
                assert(state.town.assignments@ == before.filter(|x: JobAssignment| x.monster_id != a.monster_id));
            }
        },
        Some(j) => {
            if !state.monster_roster.monsters[j].is_injured() {
                let y = job_yield(&state.monster_roster.monsters[j], a.job);
                proof {
                    lemma_yield_bounds(state.monster_roster.monsters@[j as int], a.job);
                }
                add_yield(state, totals, &y.resources);
                let w = warm_eggs(&mut state.egg_inventory.eggs, y.warmed_eggs);
                *warmed = *warmed + w as u64;
                let mut m = state.monster_roster.monsters.remove(j);
                m.bond = sat_add_u32(m.bond, 1);
                add_fatigue(&mut m, 1);
                state.monster_roster.monsters.insert(j, m);
                *workers = *workers + 1;
                proof {
                    assert(state.monster_roster.monsters@ =~= old(state).monster_roster.monsters@.update(j as int, m));
                }
            }
        },
    }
}

/// Runs one day of every town job in assignment order: resources go to the
/// ledger, warmth to the eggs, and workers gain bond and fatigue. Reports
/// what the day produced, or nothing when nobody worked. A day runs at most
/// `i32::MAX` assignments, the most a signed 32-bit worker count can report.
pub fn run_daily_jobs(state: &mut GameState, data: &GameData) -> (r: JobResult)
    requires
        old(state).town.assignments@.len() < 0x8000_0000,
    ensures
        ({
            let t = jobs_run(start_tally(*old(state)), old(state).town.assignments@);
            &&& tally_now(*final(state), Seq::empty(), 0, 0) == JobTally { totals: Seq::empty(), warmed: 0, workers: 0, ..t }
            &&& r.summary@ == job_summary(*data, t)
        }),
        same_besides_work(*old(state), *final(state)),
{
    let mut snapshot: Vec<JobAssignment> = Vec::new();
    let mut c: usize = 0;
    while c < state.town.assignments.len()
        invariant
            c <= state.town.assignments@.len(),
            snapshot@ == state.town.assignments@.take(c as int),
        decreases state.town.assignments.len() - c,
    {
        snapshot.push(state.town.assignments[c]);
        assert(snapshot@ =~= state.town.assignments@.take(c as int + 1));
        c += 1;
    }
    assert(snapshot@ =~= old(state).town.assignments@);
    let ghost asg = snapshot@;
    let mut totals: Vec<(String, i32)> = Vec::new();
    let mut warmed: u64 = 0;
    let mut workers: u64 = 0;
    proof {
        assert(pairs_view(totals@) =~= Seq::<(Seq<char>, i32)>::empty());
        assert(asg.take(0) =~= Seq::<JobAssignment>::empty());
    }
    let mut i: usize = 0;
    while i < snapshot.len()
        invariant
            i <= asg.len(),
            snapshot@ == asg,
            asg == old(state).town.assignments@,
            tally_now(*state, totals@, warmed, workers) == jobs_run(start_tally(*old(state)), asg.take(i as int)),
            same_besides_work(*old(state), *state),
            warmed <= 2 * workers,
            workers <= i,
            asg.len() < 0x8000_0000,
        decreases asg.len() - i,
    {
        assert(asg.take(i as int + 1).drop_last() =~= asg.take(i as int));
        assert(asg.take(i as int + 1).last() == asg[i as int]);
        work_assignment(state, snapshot[i], &mut totals, &mut warmed, &mut workers);
        i += 1;
    }
    assert(asg.take(asg.len() as int) =~= asg);
    if workers == 0 {
        proof {
            reveal_strlit("");
        }
        return JobResult { summary: String::new() };
    }
    let parts = parts_text(data, &totals, warmed);
    let summary = if totals.len() == 0 && warmed == 0 {
        proof {
            assert(yield_parts(*data, pairs_view(totals@), 0) =~= Seq::<Seq<char>>::empty());
        }
        let mut s = decimal_text(workers);
        s.append(" town worker(s) gained bond while helping camp.");
        s
    } else {
        let mut s = String::from_str("Town jobs produced ");
        s.append(parts.as_str());
        s.append(".");
        s
    };
    JobResult { summary }
}

/// A monster put to work can be taken off again: clearing its job leaves it
/// with none and tells the player it is resting.
pub proof fn law_cleared_job_is_gone(
    s0: GameState,
    s1: GameState,
    s2: GameState,
    data: GameData,
    monster_id: u64,
    job: TownJobKind,
    m1: Seq<char>,
    m2: Seq<char>,
)
    requires
        s0.monster_roster.spec_monster(monster_id) is Some,
        assign_outcome(s0, s1, data, monster_id, job, m1),
        s1.town.spec_monster_job(monster_id) == Some(job),
        clear_outcome(s1, s2, monster_id, m2),
    ensures
        s2.town.spec_monster_job(monster_id) is None,
        s2.monster_roster == s0.monster_roster,
        m2 == s0.monster_roster.spec_monster(monster_id).unwrap().name@ + " is resting from town work."@,
{
    if s0.town.spec_building_level("workshop"@) == 0 {
        assert(s1 == s0);
    }
}

} // verus!
