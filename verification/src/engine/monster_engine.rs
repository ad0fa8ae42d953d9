//! Party formation, daily commitments, fatigue, injuries and overnight recovery.

use vstd::prelude::*;
use crate::arith::{clamp_u32, max_int, min_int};
use crate::data::game_data::GameData;
use crate::state::game::GameState;
use crate::state::keyed::{first_numbered, lemma_first_numbered};
use crate::state::records::ActivityEntry;
use crate::state::roster::{DailyCommitment, MonsterInstance, MonsterRoster, first_empty_slot, lemma_first_empty_slot};
use crate::state::town::job_of;
use crate::seqs::lemma_first_where;
use crate::text::{decimal, decimal_text};

verus! {

/// The most fatigue a monster can carry.
pub const FATIGUE_CAP: u32 = 6;

pub struct MonsterResult {
    pub summary: String,
}

pub struct RecoveryResult {
    pub fatigue_reduced: usize,
    pub injuries_healed: usize,
    pub rested: usize,
}

/// The display name of a species, or its id when the species is unknown.
pub open spec fn species_name(data: GameData, species_id: Seq<char>) -> Seq<char> {
    match data.spec_species(species_id) {
        Some(species) => species.name@,
        None => species_id,
    }
}

pub fn species_name_text(data: &GameData, species_id: &String) -> (s: String)
    ensures
        s@ == species_name(*data, species_id@),
{
    match data.species(species_id.as_str()) {
        Some(species) => species.name.clone(),
        None => species_id.clone(),
    }
}

pub open spec fn spec_commitment_label(commitment: DailyCommitment) -> Seq<char> {
    match commitment {
        DailyCommitment::Free => "free"@,
        DailyCommitment::Tower => "tower exploration"@,
        DailyCommitment::Breeding => "breeding care"@,
        DailyCommitment::Rest => "rest"@,
    }
}

pub fn commitment_label(commitment: DailyCommitment) -> (s: &'static str)
    ensures
        s@ == spec_commitment_label(commitment),
{
    match commitment {
        DailyCommitment::Free => "free",
        DailyCommitment::Tower => "tower exploration",
        DailyCommitment::Breeding => "breeding care",
        DailyCommitment::Rest => "rest",
    }
}

/// Adds fatigue, capped at the fatigue limit.
pub fn add_fatigue(monster: &mut MonsterInstance, amount: u32)
    ensures
        *final(monster) == (MonsterInstance {
            condition: crate::state::roster::MonsterCondition {
                fatigue: if old(monster).condition.fatigue + amount < FATIGUE_CAP { (old(monster).condition.fatigue + amount) as u32 } else { FATIGUE_CAP },
                ..old(monster).condition
            },
            ..*old(monster)
        }),
{
    let total: u64 = monster.condition.fatigue as u64 + amount as u64;
    monster.condition.fatigue = if total < FATIGUE_CAP as u64 { total as u32 } else { FATIGUE_CAP };
}

pub open spec fn spec_add_fatigue(m: MonsterInstance, amount: u32) -> MonsterInstance {
    MonsterInstance {
        condition: crate::state::roster::MonsterCondition {
            fatigue: if m.condition.fatigue + amount < FATIGUE_CAP { (m.condition.fatigue + amount) as u32 } else { FATIGUE_CAP },
            ..m.condition
        },
        ..m
    }
}

/// An injury needs at least `days` of rest, keeps the monster at 1 HP or more,
/// and adds 2 fatigue.
pub open spec fn spec_add_injury(m: MonsterInstance, days: u32) -> MonsterInstance {
    let hurt = MonsterInstance {
        condition: crate::state::roster::MonsterCondition {
            injury_days: if m.condition.injury_days >= days { m.condition.injury_days } else { days },
            ..m.condition
        },
        hp: if m.hp >= 1 { m.hp } else { 1 },
        ..m
    };
    spec_add_fatigue(hurt, 2)
}

/// Fatigue adds up to at most six; an injury lasts at least the days it
/// brings (a longer one already there stays), leaves the monster at 1 HP
/// or more, and tires it by two.
pub proof fn law_fatigue_and_injury(m: MonsterInstance, amount: u32, days: u32)
    ensures
        spec_add_fatigue(m, amount).condition.fatigue == min_int(m.condition.fatigue + amount, 6),
        spec_add_fatigue(m, amount).hp == m.hp,
        spec_add_injury(m, days).condition.injury_days == max_int(m.condition.injury_days as int, days as int),
        spec_add_injury(m, days).hp == max_int(m.hp as int, 1),
        spec_add_injury(m, days).condition.fatigue == min_int(m.condition.fatigue + 2, 6),
{
}

pub fn add_injury(monster: &mut MonsterInstance, days: u32)
    ensures
        *final(monster) == spec_add_injury(*old(monster), days),
{
    if monster.condition.injury_days < days {
        monster.condition.injury_days = days;
    }
    if monster.hp < 1 {
        monster.hp = 1;
    }
    add_fatigue(monster, 2);
}

pub open spec fn spec_condition_label(m: MonsterInstance) -> Seq<char> {
    if m.condition.injury_days > 0 {
        "Injured "@ + decimal(m.condition.injury_days as nat) + "d"@
    } else if m.condition.fatigue >= 5 {
        "Exhausted"@
    } else if m.condition.fatigue >= 3 {
        "Tired"@
    } else if m.condition.fatigue > 0 {
        "Winded"@
    } else {
        "Ready"@
    }
}

pub fn condition_label(monster: &MonsterInstance) -> (s: String)
    ensures
        s@ == spec_condition_label(*monster),
{
    if monster.condition.injury_days > 0 {
        let mut s = String::from_str("Injured ");
        let n = decimal_text(monster.condition.injury_days as u64);
        s.append(n.as_str());
        s.append("d");
        s
    } else if monster.condition.fatigue >= 5 {
        String::from_str("Exhausted")
    } else if monster.condition.fatigue >= 3 {
        String::from_str("Tired")
    } else if monster.condition.fatigue > 0 {
        String::from_str("Winded")
    } else {
        String::from_str("Ready")
    }
}

pub open spec fn spec_job_label(job: crate::state::town::TownJobKind) -> Seq<char> {
    match job {
        crate::state::town::TownJobKind::Forage => "Forage"@,
        crate::state::town::TownJobKind::Quarry => "Quarry"@,
        crate::state::town::TownJobKind::Workshop => "Workshop"@,
        crate::state::town::TownJobKind::HatcheryCare => "Egg Care"@,
    }
}

pub fn job_label(job: crate::state::town::TownJobKind) -> (s: &'static str)
    ensures
        s@ == spec_job_label(job),
{
    match job {
        crate::state::town::TownJobKind::Forage => "Forage",
        crate::state::town::TownJobKind::Quarry => "Quarry",
        crate::state::town::TownJobKind::Workshop => "Workshop",
        crate::state::town::TownJobKind::HatcheryCare => "Egg Care",
    }
}

pub open spec fn spec_daily_plan_label(state: GameState, m: MonsterInstance) -> Seq<char> {
    match state.town.spec_monster_job(m.id) {
        Some(job) => spec_job_label(job),
        None => match m.condition.commitment {
            DailyCommitment::Free => "Open"@,
            DailyCommitment::Tower => "Tower"@,
            DailyCommitment::Breeding => "Breeding"@,
            DailyCommitment::Rest => "Rest"@,
        },
    }
}

/// What the monster is doing today: its town job, or its commitment.
pub fn daily_plan_label(state: &GameState, monster: &MonsterInstance) -> (s: &'static str)
    ensures
        s@ == spec_daily_plan_label(*state, *monster),
{
    match state.town.monster_job(monster.id) {
        Some(job) => job_label(job),
        None => match monster.condition.commitment {
            DailyCommitment::Free => "Open",
            DailyCommitment::Tower => "Tower",
            DailyCommitment::Breeding => "Breeding",
            DailyCommitment::Rest => "Rest",
        },
    }
}

pub open spec fn rest_needed_line(name: Seq<char>, days: u32) -> Seq<char> {
    name + " needs "@ + decimal(days as nat) + " more day(s) of rest."@
}

pub open spec fn town_work_line(name: Seq<char>) -> Seq<char> {
    name + " is committed to town work today."@
}

pub open spec fn committed_line(name: Seq<char>, commitment: DailyCommitment) -> Seq<char> {
    name + " is already committed to "@ + spec_commitment_label(commitment) + " today."@
}

/// Why the monster cannot take on a daily action, if it cannot.
pub open spec fn spec_daily_action_refusal(state: GameState, m: MonsterInstance) -> Option<Seq<char>> {
    if m.spec_injured() {
        Some(rest_needed_line(m.name@, m.condition.injury_days))
    } else if state.town.spec_monster_job(m.id) is Some {
        Some(town_work_line(m.name@))
    } else if m.condition.commitment != DailyCommitment::Free {
        Some(committed_line(m.name@, m.condition.commitment))
    } else {
        None
    }
}

/// A monster may take on the day's action exactly when it is not injured,
/// holds no town job and is not yet committed to anything else today.
pub proof fn law_daily_action_allowed(state: GameState, m: MonsterInstance)
    ensures
        spec_daily_action_refusal(state, m) is None <==> (m.condition.injury_days == 0
            && state.town.spec_monster_job(m.id) is None && m.condition.commitment == DailyCommitment::Free),
        spec_is_resting(state, m) <==> (job_of(state.town.assignments@, m.id) is None
            && (m.condition.commitment == DailyCommitment::Free || m.condition.commitment == DailyCommitment::Rest)),
{
}

pub fn rest_needed_text(name: &String, days: u32) -> (s: String)
    ensures
        s@ == rest_needed_line(name@, days),
{
    let mut s = name.clone();
    s.append(" needs ");
    let n = decimal_text(days as u64);
    s.append(n.as_str());
    s.append(" more day(s) of rest.");
    s
}

/// Checks that the monster is healthy, has no town job, and is not committed elsewhere today.
pub fn can_take_daily_action(state: &GameState, monster: &MonsterInstance) -> (r: Result<(), String>)
    ensures
        match spec_daily_action_refusal(*state, *monster) {
            Some(line) => r matches Err(e) && e@ == line,
            None => r is Ok,
        },
{
    if monster.is_injured() {
        return Err(rest_needed_text(&monster.name, monster.condition.injury_days));
    }
    if state.town.monster_job(monster.id).is_some() {
        let mut s = monster.name.clone();
        s.append(" is committed to town work today.");
        return Err(s);
    }
    if monster.condition.commitment != DailyCommitment::Free {
        let mut s = monster.name.clone();
        s.append(" is already committed to ");
        s.append(commitment_label(monster.condition.commitment));
        s.append(" today.");
        return Err(s);
    }
    Ok(())
}

/// Commits the monster for the day; false when it is not in the roster.
pub fn mark_commitment(state: &mut GameState, monster_id: u64, commitment: DailyCommitment) -> (r: bool)
    ensures
        r == (old(state).monster_roster.spec_position(monster_id) is Some),
        match old(state).monster_roster.spec_position(monster_id) {
            Some(i) => *final(state) == (GameState {
                monster_roster: MonsterRoster {
                    monsters: final(state).monster_roster.monsters,
                    ..old(state).monster_roster
                },
                ..*old(state)
            }) && final(state).monster_roster.monsters@ == old(state).monster_roster.monsters@.update(i, MonsterInstance {
                condition: crate::state::roster::MonsterCondition { commitment, ..old(state).monster_roster.monsters@[i].condition },
                ..old(state).monster_roster.monsters@[i]
            }),
            None => *final(state) == *old(state),
        },
{
    match state.monster_roster.position(monster_id) {
        Some(i) => {
            let mut m = state.monster_roster.monsters.remove(i);
            m.condition.commitment = commitment;
            state.monster_roster.monsters.insert(i, m);
            proof {
                assert(state.monster_roster.monsters@ =~= old(state).monster_roster.monsters@.update(i as int, m));
            }
            true
        },
        None => false,
    }
}

} // verus!

verus! {

/// The formation slot the monster occupies, if any.
pub open spec fn party_slot_of(slots: Seq<Option<u64>>, id: u64) -> Option<int> {
    crate::seqs::first_where(slots, |s: Option<u64>| s == Some(id))
}

fn find_party_slot(roster: &MonsterRoster, id: u64) -> (r: Option<usize>)
    ensures
        match r {
            Some(i) => party_slot_of(roster.party_slots@, id) == Some(i as int),
            None => party_slot_of(roster.party_slots@, id) == None::<int>,
        },
        r matches Some(i) ==> i < roster.party_slots@.len(),
{
    let ghost p = |s: Option<u64>| s == Some(id);
    let mut i: usize = 0;
    while i < roster.party_slots.len()
        invariant
            i <= roster.party_slots@.len(),
            crate::seqs::first_where(roster.party_slots@.take(i as int), p) is None,
            p == (|s: Option<u64>| s == Some(id)),
        decreases roster.party_slots.len() - i,
    {
        proof {
            crate::seqs::lemma_first_where_step(roster.party_slots@, p, i as int);
        }
        if roster.party_slots[i] == Some(id) {
            return Some(i);
        }
        i += 1;
    }
    proof {
        crate::seqs::lemma_first_where_done(roster.party_slots@, p);
    }
    None
}

pub open spec fn benched_line(name: Seq<char>, species: Seq<char>) -> Seq<char> {
    "Benched "@ + name + " the "@ + species + "."@
}

pub open spec fn assigned_line(name: Seq<char>, species: Seq<char>, slot: int) -> Seq<char> {
    "Assigned "@ + name + " the "@ + species + " to party slot "@ + decimal((slot + 1) as nat) + "."@
}

/// The result of toggling a monster in or out of the party formation.
pub open spec fn spec_toggle_party_member(state: GameState, data: GameData, id: u64) -> (GameState, Seq<char>) {
    match state.monster_roster.spec_monster(id) {
        None => (state, "That monster is not in the roster."@),
        Some(m) => {
            let species = species_name(data, m.species_id@);
            match party_slot_of(state.monster_roster.party_slots@, id) {
                Some(slot) => {
                    let line = benched_line(m.name@, species);
                    (state, line)
                },
                None => if m.spec_injured() {
                    (state, rest_needed_line(m.name@, m.condition.injury_days))
                } else if state.town.spec_monster_job(id) is Some {
                    (state, town_work_line(m.name@))
                } else if m.condition.commitment != DailyCommitment::Free {
                    (state, committed_line(m.name@, m.condition.commitment))
                } else {
                    match first_empty_slot(state.monster_roster.party_slots@) {
                        Some(slot) => (state, assigned_line(m.name@, species, slot)),
                        None => (state, "The party formation is full. Bench a monster first."@),
                    }
                },
            }
        },
    }
}

/// What `toggle_party_member` does to the state `s0`, giving `s1` and the summary `summary`.
pub open spec fn party_toggled(s0: GameState, s1: GameState, data: GameData, monster_id: u64, summary: Seq<char>) -> bool {
    &&& (summary == spec_toggle_party_member(s0, data, monster_id).1)
    &&& (s1.monster_roster.monsters == s0.monster_roster.monsters)
    &&& (s1.monster_roster.next_id == s0.monster_roster.next_id)
    &&& (s1.town == s0.town)
    &&& (s1.day == s0.day)
    &&& (match s0.monster_roster.spec_monster(monster_id) {
        None => s1 == s0,
        Some(m) => match party_slot_of(s0.monster_roster.party_slots@, monster_id) {
            Some(slot) => s1.monster_roster.party_slots@ == s0.monster_roster.party_slots@.update(slot, None)
                && s1.activity_log.entries@ == s0.activity_log.entries@.push(ActivityEntry { day: s0.day, text: s1.activity_log.entries@.last().text })
                && s1.activity_log.entries@.last().text@ == summary,
            None => if spec_daily_action_refusal(s0, m) is Some || first_empty_slot(s0.monster_roster.party_slots@) is None {
                s1.monster_roster == s0.monster_roster && s1.activity_log == s0.activity_log
            } else {
                s1.monster_roster.party_slots@ == s0.monster_roster.party_slots@.update(
                    first_empty_slot(s0.monster_roster.party_slots@).unwrap(), Some(monster_id))
                && s1.activity_log.entries@ == s0.activity_log.entries@.push(ActivityEntry { day: s0.day, text: s1.activity_log.entries@.last().text })
                && s1.activity_log.entries@.last().text@ == summary
            },
        },
    })
}

/// Benches a monster that stands in the formation, or puts a rested,
/// uncommitted monster without a town job into the first empty slot.
pub fn toggle_party_member(state: &mut GameState, data: &GameData, monster_id: u64) -> (r: MonsterResult)
    ensures
        party_toggled(*old(state), *final(state), *data, monster_id, r.summary@),
{
    let Some(monster) = state.monster_roster.monster(monster_id) else {
        return MonsterResult { summary: String::from_str("That monster is not in the roster.") };
    };
    let monster = monster.duplicate();
    proof {
        lemma_first_numbered(state.monster_roster.monsters@, monster_id);
    }
    let species = species_name_text(data, &monster.species_id);
    if let Some(slot) = find_party_slot(&state.monster_roster, monster_id) {
        state.monster_roster.remove_from_party(slot);
        let mut s = String::from_str("Benched ");
        s.append(monster.name.as_str());
        s.append(" the ");
        s.append(species.as_str());
        s.append(".");
        let summary = s.clone();
        state.activity_log.add(state.day, s);
        proof {
            assert(old(state).monster_roster.spec_monster(monster_id) is Some);
            assert(party_slot_of(old(state).monster_roster.party_slots@, monster_id) == Some(slot as int));
            assert(state.monster_roster.party_slots@ == old(state).monster_roster.party_slots@.update(slot as int, None));
            assert(state.activity_log.entries@.last().text@ == summary@);
            assert(summary@ == spec_toggle_party_member(*old(state), *data, monster_id).1);
        }
        return MonsterResult { summary };
    }
    if let Err(reason) = can_take_daily_action(state, &monster) {
        return MonsterResult { summary: reason };
    }
    let slot_count = state.monster_roster.party_slots.len();
    match state.monster_roster.assign_to_party(monster_id) {
        Ok(slot) => {
            let mut s = String::from_str("Assigned ");
            s.append(monster.name.as_str());
            s.append(" the ");
            s.append(species.as_str());
            s.append(" to party slot ");
            let n = decimal_text(slot as u64 + 1);
            s.append(n.as_str());
            s.append(".");
            let summary = s.clone();
            state.activity_log.add(state.day, s);
            MonsterResult { summary }
        },
        Err(error) => MonsterResult { summary: error },
    }
}

/// Putting a monster that stands outside the formation into it, then taking
/// it out again, leaves the formation as it was.
pub proof fn law_toggle_twice_restores_party(
    s0: GameState,
    s1: GameState,
    s2: GameState,
    data: GameData,
    monster_id: u64,
    summary1: Seq<char>,
    summary2: Seq<char>,
)
    requires
        party_toggled(s0, s1, data, monster_id, summary1),
        party_toggled(s1, s2, data, monster_id, summary2),
        party_slot_of(s0.monster_roster.party_slots@, monster_id) is None,
    ensures
        s2.monster_roster.party_slots@ == s0.monster_roster.party_slots@,
{
    let slots = s0.monster_roster.party_slots@;
    let p = |s: Option<u64>| s == Some(monster_id);
    lemma_first_where(slots, p);
    match s0.monster_roster.spec_monster(monster_id) {
        None => {},
        Some(m) => {
            if spec_daily_action_refusal(s0, m) is Some || first_empty_slot(slots) is None {
            } else {
                let k = first_empty_slot(slots).unwrap();
                lemma_first_empty_slot(slots);
                let mid = s1.monster_roster.party_slots@;
                assert(mid == slots.update(k, Some(monster_id)));
                lemma_first_where(mid, p);
                assert(mid[k] == Some(monster_id));
                assert(s1.monster_roster.spec_monster(monster_id) == Some(m));
                match party_slot_of(mid, monster_id) {
                    Some(i) => {
                        if i != k {
                            assert(mid[i] == slots[i]);
                            assert(!p(slots[i]));
                        }
                        assert(i == k);
                        assert(s2.monster_roster.party_slots@ =~= slots);
                    },
                    None => {
                        assert(!p(mid[k]));
                    },
                }
            }
        },
    }
}

pub open spec fn removed_line(name: Seq<char>, slot: int) -> Seq<char> {
    "Removed "@ + name + " from party slot "@ + decimal((slot + 1) as nat) + "."@
}

/// The name shown for a monster id: its name, or "Monster #id" when it is gone.
pub open spec fn monster_label(state: GameState, id: u64) -> Seq<char> {
    match state.monster_roster.spec_monster(id) {
        Some(m) => m.name@,
        None => "Monster #"@ + decimal(id as nat),
    }
}

/// Empties one formation slot.
pub fn remove_party_slot(state: &mut GameState, slot_index: usize) -> (r: MonsterResult)
    ensures
        final(state).monster_roster.monsters == old(state).monster_roster.monsters,
        final(state).town == old(state).town,
        final(state).day == old(state).day,
        match (if slot_index < old(state).monster_roster.party_slots@.len() { old(state).monster_roster.party_slots@[slot_index as int] } else { None }) {
            Some(id) => final(state).monster_roster.party_slots@ == old(state).monster_roster.party_slots@.update(slot_index as int, None)
                && r.summary@ == removed_line(monster_label(*old(state), id), slot_index as int)
                && final(state).activity_log.entries@ == old(state).activity_log.entries@.push(ActivityEntry { day: old(state).day, text: final(state).activity_log.entries@.last().text })
                && final(state).activity_log.entries@.last().text@ == r.summary@,
            None => *final(state) == *old(state) && r.summary@ == "That party slot is already empty."@,
        },
{
    let slot_count = state.monster_roster.party_slots.len();
    match state.monster_roster.remove_from_party(slot_index) {
        Some(monster_id) => {
            let name = match state.monster_roster.monster(monster_id) {
                Some(m) => m.name.clone(),
                None => {
                    let mut s = String::from_str("Monster #");
                    let n = decimal_text(monster_id);
                    s.append(n.as_str());
                    s
                },
            };
            let mut s = String::from_str("Removed ");
            s.append(name.as_str());
            s.append(" from party slot ");
            let n = decimal_text(slot_index as u64 + 1);
            s.append(n.as_str());
            s.append(".");
            let summary = s.clone();
            state.activity_log.add(state.day, s);
            MonsterResult { summary }
        },
        None => MonsterResult { summary: String::from_str("That party slot is already empty.") },
    }
}

/// Whether the monster rests tonight: it has no town job and is free or resting.
pub open spec fn spec_is_resting(state: GameState, m: MonsterInstance) -> bool {
    job_of(state.town.assignments@, m.id) is None
        && (m.condition.commitment == DailyCommitment::Free || m.condition.commitment == DailyCommitment::Rest)
}

/// One monster's night: full HP; fatigue falls by 2 when resting, 0 when
/// working a job, 1 otherwise; a resting monster heals a day of injury and
/// gains bond; every commitment ends.
pub open spec fn spec_recover_monster(state: GameState, m: MonsterInstance) -> MonsterInstance {
    let working = job_of(state.town.assignments@, m.id) is Some;
    let resting = spec_is_resting(state, m);
    let recovery: u32 = if resting { 2 } else if working { 0 } else { 1 };
    let fatigue: u32 = if m.condition.fatigue > 0 && recovery > 0 {
        if m.condition.fatigue >= recovery { (m.condition.fatigue - recovery) as u32 } else { 0 }
    } else {
        m.condition.fatigue
    };
    let injury: u32 = if m.condition.injury_days > 0 && resting { (m.condition.injury_days - 1) as u32 } else { m.condition.injury_days };
    MonsterInstance {
        hp: m.max_hp,
        bond: if resting { clamp_u32(m.bond + 1) as u32 } else { m.bond },
        condition: crate::state::roster::MonsterCondition { fatigue, injury_days: injury, commitment: DailyCommitment::Free },
        ..m
    }
}

pub open spec fn fatigue_reduced_by(state: GameState, m: MonsterInstance) -> bool {
    let working = job_of(state.town.assignments@, m.id) is Some;
    m.condition.fatigue > 0 && (spec_is_resting(state, m) || !working)
}

pub open spec fn injury_healed_by(state: GameState, m: MonsterInstance) -> bool {
    m.condition.injury_days == 1 && spec_is_resting(state, m)
}

pub open spec fn count_monsters(state: GameState, ms: Seq<MonsterInstance>, p: spec_fn(GameState, MonsterInstance) -> bool) -> int
    decreases ms.len(),
{
    if ms.len() == 0 {
        0
    } else {
        count_monsters(state, ms.drop_last(), p) + if p(state, ms.last()) { 1int } else { 0 }
    }
}

fn is_working(state: &GameState, id: u64) -> (r: bool)
    ensures
        r == (job_of(state.town.assignments@, id) is Some),
{
    state.town.monster_job(id).is_some()
}

/// Overnight recovery for every monster in the roster.
pub fn recover_monsters(state: &mut GameState) -> (r: RecoveryResult)
    ensures
        *final(state) == (GameState {
            monster_roster: MonsterRoster { monsters: final(state).monster_roster.monsters, ..old(state).monster_roster },
            ..*old(state)
        }),
        final(state).monster_roster.monsters@ == old(state).monster_roster.monsters@.map_values(|m: MonsterInstance| spec_recover_monster(*old(state), m)),
        r.fatigue_reduced == count_monsters(*old(state), old(state).monster_roster.monsters@, |s: GameState, m: MonsterInstance| fatigue_reduced_by(s, m)),
        r.injuries_healed == count_monsters(*old(state), old(state).monster_roster.monsters@, |s: GameState, m: MonsterInstance| injury_healed_by(s, m)),
        r.rested == count_monsters(*old(state), old(state).monster_roster.monsters@, |s: GameState, m: MonsterInstance| spec_is_resting(s, m)),
{
    let ghost initial = *state;
    let ghost ms = state.monster_roster.monsters@;
    let mut fatigue_reduced: usize = 0;
    let mut injuries_healed: usize = 0;
    let mut rested: usize = 0;
    let mut i: usize = 0;
    while i < state.monster_roster.monsters.len()
        invariant
            i <= ms.len(),
            state.monster_roster.monsters@.len() == ms.len(),
            *state == (GameState {
                monster_roster: MonsterRoster { monsters: state.monster_roster.monsters, ..initial.monster_roster },
                ..initial
            }),
            forall|j: int| 0 <= j < i ==> state.monster_roster.monsters@[j] == spec_recover_monster(initial, ms[j]),
            forall|j: int| i <= j < ms.len() ==> state.monster_roster.monsters@[j] == ms[j],
            fatigue_reduced == count_monsters(initial, ms.take(i as int), |s: GameState, m: MonsterInstance| fatigue_reduced_by(s, m)),
            injuries_healed == count_monsters(initial, ms.take(i as int), |s: GameState, m: MonsterInstance| injury_healed_by(s, m)),
            rested == count_monsters(initial, ms.take(i as int), |s: GameState, m: MonsterInstance| spec_is_resting(s, m)),
            fatigue_reduced <= i,
            injuries_healed <= i,
            rested <= i,
        decreases ms.len() - i,
    {
        proof {
            assert(ms.take(i as int + 1).drop_last() =~= ms.take(i as int));
            assert(ms.take(i as int + 1).last() == ms[i as int]);
        }
        let mut m = state.monster_roster.monsters[i].duplicate();
        let working = is_working(state, m.id);
        let resting = !working && (m.condition.commitment == DailyCommitment::Free || m.condition.commitment == DailyCommitment::Rest);
        let recovery: u32 = if resting { 2 } else if working { 0 } else { 1 };
        m.hp = m.max_hp;
        if m.condition.fatigue > 0 && recovery > 0 {
            m.condition.fatigue = m.condition.fatigue.saturating_sub(recovery);
            fatigue_reduced += 1;
        }
        if m.condition.injury_days > 0 && resting {
            m.condition.injury_days = m.condition.injury_days - 1;
            if m.condition.injury_days == 0 {
                injuries_healed += 1;
            }
        }
        if resting {
            m.bond = crate::arith::sat_add_u32(m.bond, 1);
            rested += 1;
        }
        m.condition.commitment = DailyCommitment::Free;
        state.monster_roster.monsters.set(i, m);
        i += 1;
    }
    proof {
        assert(ms.take(ms.len() as int) =~= ms);
        assert(state.monster_roster.monsters@ =~= ms.map_values(|m: MonsterInstance| spec_recover_monster(initial, m)));
    }
    RecoveryResult { fatigue_reduced, injuries_healed, rested }
}

/// After a night's recovery every monster stands at full health, whatever
/// it did that day (rested, worked a job, or went up the tower), and keeps
/// its identity and maximum health; every commitment ends. A resting
/// monster sheds two fatigue and a day of injury and gains a bond; one that
/// worked a job keeps its fatigue and injury; any other sheds one fatigue.
pub proof fn law_recovery_restores_health(state: GameState, before: MonsterInstance)
    ensures
        ({
            let after = spec_recover_monster(state, before);
            &&& after.hp == before.max_hp
            &&& after.max_hp == before.max_hp
            &&& after.id == before.id
            &&& after.condition.commitment == DailyCommitment::Free
            &&& after.condition.fatigue <= before.condition.fatigue
            &&& after.bond >= before.bond
            &&& (!spec_is_resting(state, before) ==> after.bond == before.bond)
            &&& (spec_is_resting(state, before) ==> {
                &&& after.condition.fatigue == if before.condition.fatigue >= 2 { before.condition.fatigue - 2 } else { 0 }
                &&& after.condition.injury_days == if before.condition.injury_days >= 1 { before.condition.injury_days - 1 } else { 0 }
                &&& (before.bond < u32::MAX ==> after.bond == before.bond + 1)
            })
            &&& (job_of(state.town.assignments@, before.id) is Some ==> {
                &&& after.condition.fatigue == before.condition.fatigue
                &&& after.condition.injury_days == before.condition.injury_days
            })
            &&& (job_of(state.town.assignments@, before.id) is None && !spec_is_resting(state, before) ==> {
                &&& after.condition.fatigue == if before.condition.fatigue >= 1 { before.condition.fatigue - 1 } else { 0 }
                &&& after.condition.injury_days == before.condition.injury_days
            })
        }),
{
}

/// A roster after its night's recovery (as `recover_monsters` and `sleep`
/// leave it) has every monster at its maximum health.
pub proof fn law_recovered_roster_at_full_health(state: GameState, before: Seq<MonsterInstance>, after: Seq<MonsterInstance>)
    requires
        after == before.map_values(|m: MonsterInstance| spec_recover_monster(state, m)),
    ensures
        after.len() == before.len(),
        forall|i: int| 0 <= i < after.len() ==> (#[trigger] after[i]).hp == after[i].max_hp && after[i].id == before[i].id,
{
    assert forall|i: int| 0 <= i < after.len() implies (#[trigger] after[i]).hp == after[i].max_hp && after[i].id == before[i].id by {
        law_recovery_restores_health(state, before[i]);
    }
}

} // verus!
