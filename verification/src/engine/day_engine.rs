//! The end of a day: eggs warm overnight, town jobs run and monsters recover.

use vstd::prelude::*;
use crate::data::game_data::GameData;
use crate::engine::job_engine::{job_summary, jobs_run, ready_before, run_daily_jobs, same_besides_work, start_tally, tally_now, JobTally};
use crate::engine::monster_engine::{count_monsters, fatigue_reduced_by, injury_healed_by, recover_monsters, spec_recover_monster};
use crate::state::eggs::{EggInstance, EggInventory};
use crate::state::game::GameState;
use crate::state::records::ActivityEntry;
use crate::state::roster::{MonsterInstance, MonsterRoster};
use crate::state::resources::stack_view;
use crate::text::{decimal, decimal_text};

verus! {

/// What ending a day reports.
pub struct DayResult {
    pub summary: String,
}

/// An egg after a night in the hatchery: one day closer to hatching.
pub open spec fn overnight(e: EggInstance) -> EggInstance {
    if e.days_remaining > 0 { EggInstance { days_remaining: (e.days_remaining - 1) as u32, ..e } } else { e }
}

/// Overnight every egg still incubating comes one day closer to hatching and
/// a ready egg stays ready; nothing else about an egg changes.
pub proof fn law_overnight_warms_each_egg(e: EggInstance)
    ensures
        e.days_remaining > 0 ==> overnight(e).days_remaining == e.days_remaining - 1,
        e.days_remaining == 0 ==> overnight(e).days_remaining == 0,
        overnight(e) == (EggInstance { days_remaining: overnight(e).days_remaining, ..e }),
{
}

/// Where the day's town work starts from: every egg warmed once overnight.
pub open spec fn night_tally(state: GameState) -> JobTally {
    JobTally { eggs: state.egg_inventory.eggs@.map_values(|e: EggInstance| overnight(e)), ..start_tally(state) }
}

/// On a night without town jobs every egg comes exactly one day closer to
/// hatching (a ready egg stays ready) and the ledger is left alone.
pub proof fn law_quiet_night(state: GameState)
    requires
        state.town.assignments@.len() == 0,
    ensures
        ({
            let t = jobs_run(night_tally(state), state.town.assignments@);
            &&& t.eggs.len() == state.egg_inventory.eggs@.len()
            &&& forall|i: int| 0 <= i < t.eggs.len() ==> (#[trigger] t.eggs[i]).days_remaining
                == if state.egg_inventory.eggs@[i].days_remaining > 0 { state.egg_inventory.eggs@[i].days_remaining - 1 } else { 0 }
            &&& t.stacks == stack_view(state.resources.stacks@)
            &&& t.workers == 0
        }),
{
    assert(jobs_run(night_tally(state), state.town.assignments@) == night_tally(state));
}

proof fn lemma_counts_follow_town(a: GameState, b: GameState, ms: Seq<MonsterInstance>)
    requires
        a.town == b.town,
    ensures
        count_monsters(a, ms, |s: GameState, m: MonsterInstance| injury_healed_by(s, m))
            == count_monsters(b, ms, |s: GameState, m: MonsterInstance| injury_healed_by(s, m)),
        count_monsters(a, ms, |s: GameState, m: MonsterInstance| fatigue_reduced_by(s, m))
            == count_monsters(b, ms, |s: GameState, m: MonsterInstance| fatigue_reduced_by(s, m)),
    decreases ms.len(),
{
    if ms.len() > 0 {
        lemma_counts_follow_town(a, b, ms.drop_last());
    }
}

pub open spec fn day_opening(previous_day: u32, eggs_warmed: nat) -> Seq<char> {
    if eggs_warmed > 0 {
        "Day "@ + decimal(previous_day as nat) + " ends. "@ + decimal(eggs_warmed)
            + " egg(s) warmed overnight and the monsters recovered."@
    } else {
        "Day "@ + decimal(previous_day as nat) + " ends. The camp rests, and every monster wakes recovered."@
    }
}

pub open spec fn recovery_note(injuries_healed: nat, fatigue_reduced: nat) -> Seq<char> {
    if injuries_healed > 0 {
        " "@ + decimal(injuries_healed) + " injury recovery complete."@
    } else if fatigue_reduced > 0 {
        " "@ + decimal(fatigue_reduced) + " tired monster(s) shook off strain."@
    } else {
        ""@
    }
}

/// The day's report: how the night went, what town work produced, and what
/// the monsters recovered from.
pub open spec fn sleep_line(previous_day: u32, eggs_warmed: nat, jobs: Seq<char>, injuries_healed: nat, fatigue_reduced: nat) -> Seq<char> {
    day_opening(previous_day, eggs_warmed) + (if jobs.len() > 0 { " "@ + jobs } else { ""@ })
        + recovery_note(injuries_healed, fatigue_reduced)
}

fn warm_overnight(eggs: &mut Vec<EggInstance>) -> (n: u64)
    ensures
        final(eggs)@ == old(eggs)@.map_values(|e: EggInstance| overnight(e)),
        n == ready_before(old(eggs)@, old(eggs)@.len() as int),
{
    let ghost initial = eggs@;
    let mut n: u64 = 0;
    let mut i: usize = 0;
    while i < eggs.len()
        invariant
            i <= initial.len(),
            eggs@.len() == initial.len(),
            n == ready_before(initial, i as int),
            n <= i,
            forall|j: int| 0 <= j < i ==> #[trigger] eggs@[j] == overnight(initial[j]),
            forall|j: int| i <= j < initial.len() ==> #[trigger] eggs@[j] == initial[j],
        decreases initial.len() - i,
    {
        if eggs[i].days_remaining > 0 {
            let mut e = eggs.remove(i);
            e.days_remaining = e.days_remaining - 1;
            eggs.insert(i, e);
            n = n + 1;
        }
        i += 1;
    }
    assert(eggs@ =~= initial.map_values(|e: EggInstance| overnight(e)));
    n
}

/// Ends the day: the day advances, every egg warms once, town jobs run, the
/// monsters recover overnight, and the report goes to the activity log under
/// the new day. The day count must have room for one more day, and the
/// town jobs' limit on assignments applies (see `run_daily_jobs`).
pub fn sleep(state: &mut GameState, data: &GameData) -> (r: DayResult)
    requires
        old(state).day < u32::MAX,
        old(state).town.assignments@.len() < 0x8000_0000,
    ensures
        ({
            let t = jobs_run(night_tally(*old(state)), old(state).town.assignments@);
            let fin = *final(state);
            &&& fin.day == old(state).day + 1
            &&& stack_view(fin.resources.stacks@) == t.stacks
            &&& fin.egg_inventory.eggs@ == t.eggs
            &&& fin.egg_inventory.next_id == old(state).egg_inventory.next_id
            &&& fin.town.assignments@ == t.assignments
            &&& fin.town.buildings == old(state).town.buildings
            &&& fin.monster_roster.monsters@ == t.monsters.map_values(|m: MonsterInstance| spec_recover_monster(fin, m))
            &&& fin.monster_roster.party_slots == old(state).monster_roster.party_slots
            &&& fin.monster_roster.next_id == old(state).monster_roster.next_id
            &&& r.summary@ == sleep_line(
                old(state).day,
                ready_before(old(state).egg_inventory.eggs@, old(state).egg_inventory.eggs@.len() as int),
                job_summary(*data, t),
                count_monsters(fin, t.monsters, |s: GameState, m: MonsterInstance| injury_healed_by(s, m)) as nat,
                count_monsters(fin, t.monsters, |s: GameState, m: MonsterInstance| fatigue_reduced_by(s, m)) as nat,
            )
            &&& fin.activity_log.entries@ == old(state).activity_log.entries@.push(ActivityEntry { day: fin.day, text: r.summary })
            &&& fin == (GameState {
                day: fin.day,
                resources: fin.resources,
                egg_inventory: EggInventory { eggs: fin.egg_inventory.eggs, ..old(state).egg_inventory },
                monster_roster: fin.monster_roster,
                town: fin.town,
                activity_log: fin.activity_log,
                ..*old(state)
            })
        }),
{
    let previous_day = state.day;
    state.day = state.day + 1;
    let warmed = warm_overnight(&mut state.egg_inventory.eggs);
    let ghost night = *state;
    proof {
        assert(start_tally(night) == night_tally(*old(state)));
    }
    let jobs = run_daily_jobs(state, data);
    let ghost worked = *state;
    let recovery = recover_monsters(state);

    let mut summary = String::from_str("Day ");
    let d = decimal_text(previous_day as u64);
    summary.append(d.as_str());
    if warmed > 0 {
        summary.append(" ends. ");
        let w = decimal_text(warmed);
        summary.append(w.as_str());
        summary.append(" egg(s) warmed overnight and the monsters recovered.");
    } else {
        summary.append(" ends. The camp rests, and every monster wakes recovered.");
    }
    let ghost opening = summary@;
    if jobs.summary.unicode_len() > 0 {
        summary.append(" ");
        summary.append(jobs.summary.as_str());
    }
    let ghost with_jobs = summary@;
    if recovery.injuries_healed > 0 {
        summary.append(" ");
        let h = decimal_text(recovery.injuries_healed as u64);
        summary.append(h.as_str());
        summary.append(" injury recovery complete.");
    } else if recovery.fatigue_reduced > 0 {
        summary.append(" ");
        let f = decimal_text(recovery.fatigue_reduced as u64);
        summary.append(f.as_str());
        summary.append(" tired monster(s) shook off strain.");
    }
    proof {
        reveal_strlit("");
        assert(opening =~= day_opening(previous_day, warmed as nat));
        if jobs.summary@.len() == 0 {
            assert(opening + ""@ =~= opening);
        }
        if recovery.injuries_healed == 0 && recovery.fatigue_reduced == 0 {
            assert(with_jobs + ""@ =~= with_jobs);
        }
    }
    let text = summary.clone();
    state.activity_log.add(state.day, text);
    proof {
        assert(state.monster_roster.monsters@ =~= worked.monster_roster.monsters@.map_values(
            |m: MonsterInstance| spec_recover_monster(*state, m)));
        lemma_counts_follow_town(worked, *state, worked.monster_roster.monsters@);
    }
    DayResult { summary }
}

} // verus!
