//! The rules of a combat round: targeting, damage, outcomes and the turn order.

use vstd::prelude::*;
use crate::arith::{clamp_i32, clamp_u32, max_int, saturate_i32, sat_add_u32, sat_sub_i32};
use crate::data::schema::MonsterRole;
use crate::seqs::{first_where, lemma_first_where, lemma_first_where_step, lemma_first_where_done};
use crate::state::combat::{CombatOutcome, CombatSide, CombatState, CombatTurn, CombatView, Combatant};
use crate::text::{decimal, signed_decimal, decimal_text, signed_text, join};

verus! {

// ---------------------------------------------------------------------------
// Targeting

/// A living unit standing in formation slot `slot`.
pub open spec fn alive_in_slot(slot: int) -> spec_fn(Combatant) -> bool {
    |u: Combatant| u.hp > 0 && u.slot == slot
}

/// The first living unit found scanning the formation slots `slot..end` in order.
pub open spec fn target_from(units: Seq<Combatant>, slot: int, end: int) -> Option<int>
    decreases end - slot,
{
    if slot >= end {
        None
    } else {
        match first_where(units, alive_in_slot(slot)) {
            Some(i) => Some(i),
            None => target_from(units, slot + 1, end),
        }
    }
}

/// The unit the front of the formation presents first: slots 0 to 5 in order.
pub open spec fn spec_first_target(units: Seq<Combatant>) -> Option<int> {
    target_from(units, 0, 6)
}

/// A front-row tank that is guarding the back row.
pub open spec fn guarding_tank() -> spec_fn(Combatant) -> bool {
    |u: Combatant| u.hp > 0 && u.slot < 3 && u.role == Some(MonsterRole::Tank) && u.is_guarding
}

fn find_alive_in_slot(units: &Vec<Combatant>, slot: usize) -> (r: Option<usize>)
    ensures
        match r {
            Some(i) => first_where(units@, alive_in_slot(slot as int)) == Some(i as int),
            None => first_where(units@, alive_in_slot(slot as int)) == None::<int>,
        },
        r matches Some(i) ==> i < units@.len(),
{
    let ghost p = alive_in_slot(slot as int);
    let mut i: usize = 0;
    while i < units.len()
        invariant
            i <= units@.len(),
            first_where(units@.take(i as int), p) is None,
            p == alive_in_slot(slot as int),
        decreases units.len() - i,
    {
        proof {
            lemma_first_where_step(units@, p, i as int);
        }
        if units[i].hp > 0 && units[i].slot == slot {
            return Some(i);
        }
        i += 1;
    }
    proof {
        lemma_first_where_done(units@, p);
    }
    None
}

/// The first living unit in formation slots `start..end`.
pub fn row_target(units: &Vec<Combatant>, start: usize, end: usize) -> (r: Option<usize>)
    requires
        end <= 6,
    ensures
        match r {
            Some(i) => target_from(units@, start as int, end as int) == Some(i as int),
            None => target_from(units@, start as int, end as int) == None::<int>,
        },
        r matches Some(i) ==> i < units@.len(),
{
    let mut slot = start;
    while slot < end
        invariant
            start <= slot,
            end <= 6,
            target_from(units@, start as int, end as int) == target_from(units@, slot as int, end as int),
        decreases end - slot,
    {
        match find_alive_in_slot(units, slot) {
            Some(i) => return Some(i),
            None => {},
        }
        slot += 1;
    }
    None
}

/// The first living unit, scanning the front row and then the back row.
pub fn first_target(units: &Vec<Combatant>) -> (r: Option<usize>)
    ensures
        match r {
            Some(i) => spec_first_target(units@) == Some(i as int),
            None => spec_first_target(units@) == None::<int>,
        },
        r matches Some(i) ==> i < units@.len(),
{
    row_target(units, 0, 6)
}

/// A living, guarding tank in the front row.
pub fn guarding_front_tank(units: &Vec<Combatant>) -> (r: Option<usize>)
    ensures
        match r {
            Some(i) => first_where(units@, guarding_tank()) == Some(i as int),
            None => first_where(units@, guarding_tank()) == None::<int>,
        },
        r matches Some(i) ==> i < units@.len(),
{
    let ghost p = guarding_tank();
    let mut i: usize = 0;
    while i < units.len()
        invariant
            i <= units@.len(),
            first_where(units@.take(i as int), p) is None,
            p == guarding_tank(),
        decreases units.len() - i,
    {
        proof {
            lemma_first_where_step(units@, p, i as int);
        }
        let u = &units[i];
        if u.hp > 0 && u.slot < 3 && u.role == Some(MonsterRole::Tank) && u.is_guarding {
            return Some(i);
        }
        i += 1;
    }
    proof {
        lemma_first_where_done(units@, p);
    }
    None
}

/// The wounded living unit with the least HP; the first one on ties.
pub open spec fn spec_wounded_target(units: Seq<Combatant>) -> Option<int>
    decreases units.len(),
{
    if units.len() == 0 {
        None
    } else {
        let best = spec_wounded_target(units.drop_last());
        let u = units.last();
        if u.hp > 0 && u.hp < u.max_hp && (best is None || u.hp < units[best.unwrap()].hp) {
            Some(units.len() - 1)
        } else {
            best
        }
    }
}

pub proof fn lemma_wounded_target_bounds(units: Seq<Combatant>)
    ensures
        spec_wounded_target(units) matches Some(i) ==> 0 <= i < units.len(),
    decreases units.len(),
{
    if units.len() > 0 {
        lemma_wounded_target_bounds(units.drop_last());
    }
}

pub fn wounded_target(units: &Vec<Combatant>) -> (r: Option<usize>)
    ensures
        match r {
            Some(i) => spec_wounded_target(units@) == Some(i as int),
            None => spec_wounded_target(units@) == None::<int>,
        },
        r matches Some(i) ==> i < units@.len(),
{
    let mut best: Option<usize> = None;
    let mut i: usize = 0;
    while i < units.len()
        invariant
            i <= units@.len(),
            match best {
                Some(b) => spec_wounded_target(units@.take(i as int)) == Some(b as int),
                None => spec_wounded_target(units@.take(i as int)) == None::<int>,
            },
            best matches Some(b) ==> b < i,
        decreases units.len() - i,
    {
        proof {
            assert(units@.take(i as int + 1).drop_last() =~= units@.take(i as int));
            assert(units@.take(i as int + 1).last() == units@[i as int]);
            if best is Some {
                assert(units@.take(i as int)[best.unwrap() as int] == units@[best.unwrap() as int]);
            }
        }
        let u = &units[i];
        let better = match best {
            None => true,
            Some(b) => u.hp < units[b].hp,
        };
        if u.hp > 0 && u.hp < u.max_hp && better {
            best = Some(i);
        }
        i += 1;
    }
    proof {
        assert(units@.take(units@.len() as int) =~= units@);
    }
    best
}

// ---------------------------------------------------------------------------
// Damage

/// Half of `d`, rounded toward zero.
pub open spec fn half_toward_zero(d: int) -> int {
    if d >= 0 { d / 2 } else { -((-d) / 2) }
}

/// The damage `actor` deals to `target`: attack plus bonuses, less a back-row
/// penalty for monsters and half the target's defense, and at least 1.
pub open spec fn spec_attack_damage(actor: Combatant, target: Combatant, bonus: i32) -> int {
    let back_row_penalty: int = if actor.monster_id is Some && actor.slot >= 3 { 1 } else { 0 };
    let mark_bonus: int = if target.is_marked { 2 } else { 0 };
    clamp_i32(max_int(1, actor.attack + bonus + mark_bonus - back_row_penalty - half_toward_zero(target.defense as int)))
}

pub fn attack_damage(actor: &Combatant, target: &Combatant, bonus: i32) -> (d: i32)
    ensures
        d == spec_attack_damage(*actor, *target, bonus),
        d >= 1,
{
    let back_row_penalty: i64 = if actor.monster_id.is_some() && actor.slot >= 3 { 1 } else { 0 };
    let mark_bonus: i64 = if target.is_marked { 2 } else { 0 };
    let defense = target.defense as i64;
    let half: i64 = if defense >= 0 { defense / 2 } else { -((-defense) / 2) };
    let raw: i64 = actor.attack as i64 + bonus as i64 + mark_bonus - back_row_penalty - half;
    let floored: i64 = if raw < 1 { 1 } else { raw };
    saturate_i32(floored)
}

/// How an attack's damage answers to each of its inputs. With no bonus, no
/// mark, no defense and the attacker in front, it is the attacker's attack
/// (at least 1). Above that floor of 1 (and below the `i32` ceiling): one
/// more point of bonus adds one damage; a mark on the target adds two; a
/// monster attacking from the back row (slot 3 on) loses one; and the
/// target's defense counts at half, so two more defense take exactly one
/// damage away while one more point above an even defense takes none.
pub proof fn law_attack_damage_inputs(actor: Combatant, target: Combatant, bonus: i32)
    ensures
        ({
            let plain = Combatant { is_marked: false, defense: 0, ..target };
            let front = Combatant { monster_id: None, ..actor };
            spec_attack_damage(front, plain, 0) == if actor.attack >= 1 { actor.attack as int } else { 1 }
        }),
        bonus < i32::MAX ==> {
            let d = spec_attack_damage(actor, target, bonus);
            1 < d && d + 1 < i32::MAX ==> spec_attack_damage(actor, target, (bonus + 1) as i32) == d + 1
        },
        ({
            let unmarked = Combatant { is_marked: false, ..target };
            let marked = Combatant { is_marked: true, ..target };
            let d = spec_attack_damage(actor, unmarked, bonus);
            1 < d && d + 2 < i32::MAX ==> spec_attack_damage(actor, marked, bonus) == d + 2
        }),
        actor.monster_id is Some ==> {
            let front = Combatant { slot: 0, ..actor };
            let back = Combatant { slot: 3, ..actor };
            let d = spec_attack_damage(front, target, bonus);
            2 < d && d < i32::MAX ==> spec_attack_damage(back, target, bonus) == d - 1
        },
        0 <= target.defense && target.defense + 2 <= i32::MAX ==> {
            let d = spec_attack_damage(actor, target, bonus);
            let tougher = Combatant { defense: (target.defense + 2) as i32, ..target };
            1 < d && d < i32::MAX ==> spec_attack_damage(actor, tougher, bonus) == d - 1
        },
        0 <= target.defense && target.defense + 1 <= i32::MAX && target.defense % 2 == 0 ==> {
            let one_more = Combatant { defense: (target.defense + 1) as i32, ..target };
            spec_attack_damage(actor, one_more, bonus) == spec_attack_damage(actor, target, bonus)
        },
{
    if 0 <= target.defense && target.defense + 2 <= i32::MAX {
        assert(half_toward_zero(target.defense + 2) == half_toward_zero(target.defense as int) + 1);
    }
    if 0 <= target.defense && target.defense + 1 <= i32::MAX && target.defense % 2 == 0 {
        assert(half_toward_zero(target.defense + 1) == half_toward_zero(target.defense as int));
    }
}

// ---------------------------------------------------------------------------
// Log lines

pub open spec fn defeated_line(name: Seq<char>) -> Seq<char> {
    name + " is defeated."@
}

/// The units of one side.
pub open spec fn side_units(v: CombatView, side: CombatSide) -> Seq<Combatant> {
    match side {
        CombatSide::Ally => v.allies,
        CombatSide::Enemy => v.enemies,
    }
}

/// Logs a defeat line when the unit at `slot` on `side` has fallen.
pub open spec fn spec_log_if_defeated(v: CombatView, side: CombatSide, slot: int) -> CombatView {
    let units = side_units(v, side);
    if 0 <= slot < units.len() && units[slot].hp <= 0 {
        CombatView { log: v.log.push(defeated_line(units[slot].name@)), ..v }
    } else {
        v
    }
}

pub fn log_if_defeated(c: &mut CombatState, side: CombatSide, slot: usize)
    ensures
        final(c)@ == spec_log_if_defeated(old(c)@, side, slot as int),
{
    let units = match side {
        CombatSide::Ally => &c.allies,
        CombatSide::Enemy => &c.enemies,
    };
    if slot < units.len() && units[slot].hp <= 0 {
        let line = join(units[slot].name.clone(), " is defeated.");
        c.add_log(line);
    }
}

// ---------------------------------------------------------------------------
// Outcomes

pub open spec fn all_fallen(units: Seq<Combatant>) -> bool {
    forall|i: int| 0 <= i < units.len() ==> units[i].hp <= 0
}

/// Settles the encounter when one side has no living unit; true when it is settled.
pub open spec fn spec_check_outcome(v: CombatView) -> (CombatView, bool) {
    if v.outcome is Some {
        (v, true)
    } else if all_fallen(v.enemies) {
        (CombatView { outcome: Some(CombatOutcome::Victory), log: v.log.push("The enemies are defeated."@), ..v }, true)
    } else if all_fallen(v.allies) {
        (CombatView { outcome: Some(CombatOutcome::Defeat), log: v.log.push("The party falls back defeated."@), ..v }, true)
    } else {
        (v, false)
    }
}

fn all_units_fallen(units: &Vec<Combatant>) -> (r: bool)
    ensures
        r == all_fallen(units@),
{
    let mut i: usize = 0;
    while i < units.len()
        invariant
            i <= units@.len(),
            forall|j: int| 0 <= j < i ==> units@[j].hp <= 0,
        decreases units.len() - i,
    {
        if units[i].hp > 0 {
            return false;
        }
        i += 1;
    }
    true
}

pub fn check_outcome(c: &mut CombatState) -> (done: bool)
    ensures
        done == spec_check_outcome(old(c)@).1,
        final(c)@ == spec_check_outcome(old(c)@).0,
{
    if c.outcome.is_some() {
        return true;
    }
    if all_units_fallen(&c.enemies) {
        c.outcome = Some(CombatOutcome::Victory);
        proof { reveal_strlit("The enemies are defeated."); }
        c.add_log(String::from_str("The enemies are defeated."));
        return true;
    }
    if all_units_fallen(&c.allies) {
        c.outcome = Some(CombatOutcome::Defeat);
        c.add_log(String::from_str("The party falls back defeated."));
        return true;
    }
    false
}

pub open spec fn spec_turn_is_alive(v: CombatView, turn: CombatTurn) -> bool {
    let units = side_units(v, turn.side);
    turn.slot < units.len() && units[turn.slot as int].hp > 0
}

pub fn turn_is_alive(c: &CombatState, turn: CombatTurn) -> (r: bool)
    ensures
        r == spec_turn_is_alive(c@, turn),
{
    match turn.side {
        CombatSide::Ally => turn.slot < c.allies.len() && c.allies[turn.slot].hp > 0,
        CombatSide::Enemy => turn.slot < c.enemies.len() && c.enemies[turn.slot].hp > 0,
    }
}

// ---------------------------------------------------------------------------
// Turn order

pub type TurnEntry = (i32, CombatTurn);

/// Inserts `x` after every entry at least as fast, keeping the order stable.
pub open spec fn insert_by_speed(s: Seq<TurnEntry>, x: TurnEntry) -> Seq<TurnEntry>
    decreases s.len(),
{
    if s.len() == 0 {
        seq![x]
    } else if s.last().0 >= x.0 {
        s.push(x)
    } else {
        insert_by_speed(s.drop_last(), x).push(s.last())
    }
}

/// A stable sort from fastest to slowest.
pub open spec fn sort_by_speed(s: Seq<TurnEntry>) -> Seq<TurnEntry>
    decreases s.len(),
{
    if s.len() == 0 {
        Seq::empty()
    } else {
        insert_by_speed(sort_by_speed(s.drop_last()), s.last())
    }
}

/// Inserting by speed puts the entry at one place: after every entry at
/// least as fast that the scan from the end stops at, before the slower ones.
proof fn lemma_insert_position(t: Seq<TurnEntry>, x: TurnEntry) -> (p: int)
    ensures
        0 <= p <= t.len(),
        insert_by_speed(t, x) == t.insert(p, x),
        forall|i: int| p <= i < t.len() ==> t[i].0 < x.0,
        p > 0 ==> t[p - 1].0 >= x.0,
    decreases t.len(),
{
    if t.len() == 0 {
        assert(seq![x] =~= t.insert(0, x));
        0
    } else if t.last().0 >= x.0 {
        assert(t.push(x) =~= t.insert(t.len() as int, x));
        t.len() as int
    } else {
        let d = t.drop_last();
        let q = lemma_insert_position(d, x);
        assert(d.insert(q, x).push(t.last()) =~= t.insert(q, x));
        assert forall|i: int| q <= i < t.len() implies t[i].0 < x.0 by {
            if i < d.len() {
                assert(t[i] == d[i]);
            }
        }
        if q > 0 {
            assert(t[q - 1] == d[q - 1]);
        }
        q
    }
}

/// Entries ordered fastest first.
pub open spec fn by_speed(r: Seq<TurnEntry>) -> bool {
    forall|i: int, j: int| 0 <= i < j < r.len() ==> r[i].0 >= r[j].0
}

/// Of two equally fast entries of `r`, the earlier one also comes earlier in `s`.
pub open spec fn keeps_ties(s: Seq<TurnEntry>, r: Seq<TurnEntry>) -> bool {
    forall|i: int, j: int| 0 <= i < j < r.len() && r[i].0 == r[j].0
        ==> exists|a: int, b: int| 0 <= a < b < s.len() && s[a] == r[i] && s[b] == r[j]
}

/// The turn order's sort puts the entries fastest first, keeps every entry
/// (as many times as it occurs), and leaves equally fast entries in the
/// order they came.
pub proof fn law_turn_order_sorted(s: Seq<TurnEntry>)
    ensures
        sort_by_speed(s).to_multiset() == s.to_multiset(),
        sort_by_speed(s).len() == s.len(),
        by_speed(sort_by_speed(s)),
        keeps_ties(s, sort_by_speed(s)),
    decreases s.len(),
{
    broadcast use vstd::seq_lib::group_to_multiset_ensures;
    if s.len() == 0 {
        assert(sort_by_speed(s) =~= s);
    } else {
        let d = s.drop_last();
        let x = s.last();
        law_turn_order_sorted(d);
        let t = sort_by_speed(d);
        let p = lemma_insert_position(t, x);
        let r = sort_by_speed(s);
        assert(r == t.insert(p, x));
        assert(s =~= d.push(x));
        assert(r.to_multiset() == t.to_multiset().insert(x));
        assert forall|i: int, j: int| 0 <= i < j < r.len() implies r[i].0 >= r[j].0 by {
            if i < p {
                assert(r[i] == t[i]);
                if j < p {
                    assert(r[j] == t[j]);
                } else if j == p {
                    assert(t[p - 1].0 >= x.0);
                } else {
                    assert(r[j] == t[j - 1]);
                }
            } else if i == p {
                assert(r[j] == t[j - 1]);
            } else {
                assert(r[i] == t[i - 1] && r[j] == t[j - 1]);
            }
        }
        assert forall|i: int, j: int| 0 <= i < j < r.len() && r[i].0 == r[j].0
            implies exists|a: int, b: int| 0 <= a < b < s.len() && s[a] == r[i] && s[b] == r[j] by {
            let n = s.len() - 1;
            if j == p {
                assert(r[i] == t[i]);
                assert(t.contains(t[i]));
                assert(t.to_multiset().count(t[i]) > 0);
                assert(d.contains(t[i]));
                let a = choose|a: int| 0 <= a < d.len() && d[a] == t[i];
                assert(s[a] == r[i] && s[n] == r[j]);
            } else if i == p {
                assert(r[j] == t[j - 1]);
            } else {
                let ii = if i < p { i } else { i - 1 };
                let jj = if j < p { j } else { j - 1 };
                assert(r[i] == t[ii] && r[j] == t[jj]);
                assert(ii < jj);
                let (a, b) = choose|a: int, b: int| 0 <= a < b < d.len() && d[a] == t[ii] && d[b] == t[jj];
                assert(s[a] == r[i] && s[b] == r[j]);
            }
        }
    }
}

/// The living units of one side, as speed-tagged turns.
pub open spec fn side_entries(units: Seq<Combatant>, side: CombatSide) -> Seq<TurnEntry>
    decreases units.len(),
{
    if units.len() == 0 {
        Seq::empty()
    } else {
        let rest = side_entries(units.drop_last(), side);
        if units.last().hp > 0 {
            rest.push((units.last().speed, CombatTurn { side, slot: (units.len() - 1) as usize }))
        } else {
            rest
        }
    }
}

/// Every living unit's turn, fastest first; allies before enemies, then lower
/// positions first, on ties.
pub open spec fn spec_turn_order(v: CombatView) -> Seq<CombatTurn> {
    sort_by_speed(side_entries(v.allies, CombatSide::Ally) + side_entries(v.enemies, CombatSide::Enemy)).map_values(|e: TurnEntry| e.1)
}

pub open spec fn spec_rebuild(v: CombatView) -> CombatView {
    CombatView { turn_order: spec_turn_order(v), turn_index: 0, ..v }
}

proof fn lemma_insert_split(a: Seq<TurnEntry>, b: Seq<TurnEntry>, x: TurnEntry)
    requires
        a.len() == 0 || a.last().0 >= x.0,
        forall|i: int| 0 <= i < b.len() ==> b[i].0 < x.0,
    ensures
        insert_by_speed(a + b, x) == a.push(x) + b,
    decreases b.len(),
{
    if b.len() == 0 {
        assert(a + b =~= a);
        assert(a.push(x) + b =~= a.push(x));
        if a.len() == 0 {
            assert(seq![x] =~= a.push(x));
        }
    } else {
        let ab = a + b;
        assert(ab.last() == b.last());
        assert(ab.drop_last() =~= a + b.drop_last());
        lemma_insert_split(a, b.drop_last(), x);
        assert(a.push(x) + b =~= (a.push(x) + b.drop_last()).push(b.last()));
    }
}

fn insert_entry(v: &mut Vec<TurnEntry>, x: TurnEntry)
    ensures
        final(v)@ == insert_by_speed(old(v)@, x),
{
    let mut k = v.len();
    while k > 0 && v[k - 1].0 < x.0
        invariant
            k <= v@.len(),
            v@ == old(v)@,
            forall|i: int| k <= i < v@.len() ==> v@[i].0 < x.0,
        decreases k,
    {
        k -= 1;
    }
    proof {
        let a = v@.subrange(0, k as int);
        let b = v@.subrange(k as int, v@.len() as int);
        assert(a + b =~= v@);
        if a.len() > 0 {
            assert(a.last() == v@[k - 1]);
        }
        lemma_insert_split(a, b, x);
    }
    v.insert(k, x);
}

fn collect_side(units: &Vec<Combatant>, side: CombatSide, out: &mut Vec<TurnEntry>)
    ensures
        final(out)@ == old(out)@ + side_entries(units@, side),
{
    let mut i: usize = 0;
    while i < units.len()
        invariant
            i <= units@.len(),
            out@ == old(out)@ + side_entries(units@.take(i as int), side),
        decreases units.len() - i,
    {
        proof {
            assert(units@.take(i as int + 1).drop_last() =~= units@.take(i as int));
            assert(units@.take(i as int + 1).last() == units@[i as int]);
        }
        if units[i].hp > 0 {
            out.push((units[i].speed, CombatTurn { side, slot: i }));
        }
        proof {
            assert(out@ =~= old(out)@ + side_entries(units@.take(i as int + 1), side));
        }
        i += 1;
    }
    assert(units@.take(units@.len() as int) =~= units@);
}

/// Orders every living unit's turn from fastest to slowest and restarts the round.
pub fn rebuild_turn_order(c: &mut CombatState)
    ensures
        final(c)@ == spec_rebuild(old(c)@),
{
    let mut entries: Vec<TurnEntry> = Vec::new();
    collect_side(&c.allies, CombatSide::Ally, &mut entries);
    collect_side(&c.enemies, CombatSide::Enemy, &mut entries);
    let ghost all = entries@;
    assert(all =~= side_entries(c.allies@, CombatSide::Ally) + side_entries(c.enemies@, CombatSide::Enemy));
    let mut sorted: Vec<TurnEntry> = Vec::new();
    let mut i: usize = 0;
    while i < entries.len()
        invariant
            i <= entries@.len(),
            entries@ == all,
            sorted@ == sort_by_speed(all.take(i as int)),
        decreases entries.len() - i,
    {
        proof {
            assert(all.take(i as int + 1).drop_last() =~= all.take(i as int));
            assert(all.take(i as int + 1).last() == all[i as int]);
        }
        insert_entry(&mut sorted, entries[i]);
        i += 1;
    }
    assert(all.take(all.len() as int) =~= all);
    let mut order: Vec<CombatTurn> = Vec::new();
    let mut j: usize = 0;
    while j < sorted.len()
        invariant
            j <= sorted@.len(),
            order@ == sorted@.take(j as int).map_values(|e: TurnEntry| e.1),
        decreases sorted.len() - j,
    {
        order.push(sorted[j].1);
        assert(order@ =~= sorted@.take(j as int + 1).map_values(|e: TurnEntry| e.1));
        j += 1;
    }
    assert(sorted@.take(sorted@.len() as int) =~= sorted@);
    c.turn_order = order;
    c.turn_index = 0;
}

/// Clears every unit's defend stance (and, for allies, guard stance) for a new round.
pub open spec fn spec_new_round_units(units: Seq<Combatant>, clear_guard: bool) -> Seq<Combatant> {
    units.map_values(|u: Combatant| Combatant {
        is_defending: false,
        is_guarding: if clear_guard { false } else { u.is_guarding },
        ..u
    })
}

/// Moves to the next turn; past the end of the order a new round starts: the
/// round counter goes up, stances are cleared and the order is rebuilt.
pub open spec fn spec_advance_turn(v: CombatView) -> CombatView {
    let next = if v.turn_index < usize::MAX { (v.turn_index + 1) as usize } else { v.turn_index };
    if next < v.turn_order.len() {
        CombatView { turn_index: next, ..v }
    } else {
        spec_rebuild(CombatView {
            round: clamp_u32(v.round + 1) as u32,
            allies: spec_new_round_units(v.allies, true),
            enemies: spec_new_round_units(v.enemies, false),
            turn_index: next,
            ..v
        })
    }
}

fn clear_stances(units: &mut Vec<Combatant>, clear_guard: bool)
    ensures
        final(units)@ == spec_new_round_units(old(units)@, clear_guard),
{
    let mut i: usize = 0;
    while i < units.len()
        invariant
            i <= units@.len(),
            units@.len() == old(units)@.len(),
            forall|j: int| 0 <= j < i ==> units@[j] == spec_new_round_units(old(units)@, clear_guard)[j],
            forall|j: int| i <= j < units@.len() ==> units@[j] == old(units)@[j],
        decreases units.len() - i,
    {
        let u = units[i].duplicate();
        let guarding = if clear_guard { false } else { u.is_guarding };
        units.set(i, Combatant { is_defending: false, is_guarding: guarding, ..u });
        i += 1;
    }
    assert(units@ =~= spec_new_round_units(old(units)@, clear_guard));
}

pub fn advance_turn(c: &mut CombatState)
    ensures
        final(c)@ == spec_advance_turn(old(c)@),
{
    if c.turn_index < usize::MAX {
        c.turn_index = c.turn_index + 1;
    }
    if c.turn_index >= c.turn_order.len() {
        c.round = sat_add_u32(c.round, 1);
        clear_stances(&mut c.allies, true);
        clear_stances(&mut c.enemies, false);
        rebuild_turn_order(c);
    }
}

} // verus!
