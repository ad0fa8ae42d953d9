//! The field guide: enemies, landmarks and hazards enter it the first time
//! the party sees them.

use vstd::prelude::*;
use crate::data::game_data::GameData;
use crate::state::game::GameState;
use crate::state::records::{TowerDiscoveries, name_list, with_name};
use crate::state::tower_map::{TowerMapObject, TowerMapObjectKind, TowerMapState, TowerTileVisibility};
use crate::state::tower_run::TowerRunState;

verus! {

#[derive(Clone, Copy, PartialEq, Eq, Structural)]
pub enum DiscoveryKind {
    Enemy,
    Location,
    Hazard,
}

/// What an object adds to the field guide, if anything.
pub open spec fn candidate_of(o: TowerMapObject) -> Option<(DiscoveryKind, Seq<char>)> {
    match o.kind {
        TowerMapObjectKind::Enemy | TowerMapObjectKind::Boss => Some((DiscoveryKind::Enemy, o.enemy_id@)),
        TowerMapObjectKind::SpecialLocation => Some((DiscoveryKind::Location, o.special_location_id@)),
        TowerMapObjectKind::Hazard => Some((DiscoveryKind::Hazard, o.hazard_id@)),
        _ => None,
    }
}

/// The candidates among the visible objects, in order.
pub open spec fn visible_candidates(map: TowerMapState, objs: Seq<TowerMapObject>) -> Seq<(DiscoveryKind, Seq<char>)>
    decreases objs.len(),
{
    if objs.len() == 0 {
        Seq::empty()
    } else {
        let rest = visible_candidates(map, objs.drop_last());
        let o = objs.last();
        if map.spec_visibility(o.x, o.y) == TowerTileVisibility::Visible && candidate_of(o) is Some {
            rest.push(candidate_of(o).unwrap())
        } else {
            rest
        }
    }
}

/// The field guide's three lists as texts.
pub struct GuideView {
    pub enemies: Seq<Seq<char>>,
    pub locations: Seq<Seq<char>>,
    pub hazards: Seq<Seq<char>>,
}

pub open spec fn guide_view(d: TowerDiscoveries) -> GuideView {
    GuideView { enemies: name_list(d.enemies@), locations: name_list(d.special_locations@), hazards: name_list(d.hazards@) }
}

pub open spec fn guide_has(g: GuideView, c: (DiscoveryKind, Seq<char>)) -> bool {
    match c.0 {
        DiscoveryKind::Enemy => g.enemies.contains(c.1),
        DiscoveryKind::Location => g.locations.contains(c.1),
        DiscoveryKind::Hazard => g.hazards.contains(c.1),
    }
}

pub open spec fn guide_with(g: GuideView, c: (DiscoveryKind, Seq<char>)) -> GuideView {
    match c.0 {
        DiscoveryKind::Enemy => GuideView { enemies: with_name(g.enemies, c.1), ..g },
        DiscoveryKind::Location => GuideView { locations: with_name(g.locations, c.1), ..g },
        DiscoveryKind::Hazard => GuideView { hazards: with_name(g.hazards, c.1), ..g },
    }
}

/// The display name of a discovery: its definition's name, or its id.
pub open spec fn discovery_name(data: GameData, c: (DiscoveryKind, Seq<char>)) -> Seq<char> {
    match c.0 {
        DiscoveryKind::Enemy => match data.spec_enemy(c.1) { Some(e) => e.name@, None => c.1 },
        DiscoveryKind::Location => match data.spec_special_location(c.1) { Some(e) => e.name@, None => c.1 },
        DiscoveryKind::Hazard => match data.spec_tower_hazard(c.1) { Some(e) => e.name@, None => c.1 },
    }
}

/// The guide after every candidate in turn, and the names of those that were new.
pub open spec fn discover_all(data: GameData, g: GuideView, cs: Seq<(DiscoveryKind, Seq<char>)>) -> (GuideView, Seq<Seq<char>>)
    decreases cs.len(),
{
    if cs.len() == 0 {
        (g, Seq::empty())
    } else {
        let (prev, names) = discover_all(data, g, cs.drop_last());
        let c = cs.last();
        if guide_has(prev, c) {
            (prev, names)
        } else {
            (guide_with(prev, c), names.push(discovery_name(data, c)))
        }
    }
}

proof fn lemma_with_name(v: Seq<Seq<char>>, name: Seq<char>, x: Seq<char>)
    ensures
        crate::state::records::with_name(v, name).contains(x) <==> (v.contains(x) || x == name),
{
    if !v.contains(name) {
        let w = v.push(name);
        assert(w[v.len() as int] == name);
        if v.contains(x) {
            let k = choose|k: int| 0 <= k < v.len() && v[k] == x;
            assert(w[k] == x);
        }
        if w.contains(x) {
            let k = choose|k: int| 0 <= k < w.len() && w[k] == x;
            if k < v.len() {
                assert(v[k] == x);
            }
        }
    }
}

proof fn lemma_guide_with(g: GuideView, c: (DiscoveryKind, Seq<char>), d: (DiscoveryKind, Seq<char>))
    ensures
        guide_has(guide_with(g, c), d) <==> (guide_has(g, d) || d == c),
{
    lemma_with_name(g.enemies, c.1, d.1);
    lemma_with_name(g.locations, c.1, d.1);
    lemma_with_name(g.hazards, c.1, d.1);
}

/// The field guide after a sighting holds everything it held, every sighted
/// enemy, landmark and hazard, and nothing else; a name is reported as new
/// exactly when it was not yet in the guide, each once.
pub proof fn law_guide_records_sightings(data: GameData, g: GuideView, cs: Seq<(DiscoveryKind, Seq<char>)>, c: (DiscoveryKind, Seq<char>))
    ensures
        guide_has(g, c) ==> guide_has(discover_all(data, g, cs).0, c),
        cs.contains(c) ==> guide_has(discover_all(data, g, cs).0, c),
        guide_has(discover_all(data, g, cs).0, c) ==> guide_has(g, c) || cs.contains(c),
        discover_all(data, g, cs).1.len() <= cs.len(),
    decreases cs.len(),
{
    if cs.len() > 0 {
        let prefix = cs.drop_last();
        law_guide_records_sightings(data, g, prefix, c);
        let last = cs.last();
        law_guide_records_sightings(data, g, prefix, last);
        let prev = discover_all(data, g, prefix).0;
        lemma_guide_with(prev, last, c);
        if cs.contains(c) && !prefix.contains(c) {
            let k = choose|k: int| 0 <= k < cs.len() && cs[k] == c;
            if k < prefix.len() {
                assert(prefix[k] == cs[k]);
            }
            assert(c == last);
        }
        if prefix.contains(c) {
            let k = choose|k: int| 0 <= k < prefix.len() && prefix[k] == c;
            assert(cs[k] == prefix[k]);
        }
    }
}

/// Texts joined with ", ".
pub open spec fn joined(names: Seq<Seq<char>>) -> Seq<char>
    decreases names.len(),
{
    if names.len() == 0 {
        Seq::empty()
    } else if names.len() == 1 {
        names[0]
    } else {
        joined(names.drop_last()) + ", "@ + names.last()
    }
}

/// What the party can newly record: the visible objects of the run's map, then `extra`.
pub open spec fn discovery_candidates(state: GameState, extra: Option<TowerMapObject>) -> Seq<(DiscoveryKind, Seq<char>)> {
    let seen = match state.tower_run {
        Some(run) => visible_candidates(run.map, run.map.objects@),
        None => Seq::empty(),
    };
    match extra {
        Some(o) => match candidate_of(o) {
            Some(c) => seen.push(c),
            None => seen,
        },
        None => seen,
    }
}

pub open spec fn guide_line(names: Seq<Seq<char>>) -> Seq<char> {
    "Field guide updated: "@ + joined(names) + "."@
}

fn candidate(o: &TowerMapObject) -> (r: Option<(DiscoveryKind, String)>)
    ensures
        match r {
            Some((k, id)) => candidate_of(*o) == Some((k, id@)),
            None => candidate_of(*o) is None,
        },
{
    match o.kind {
        TowerMapObjectKind::Enemy | TowerMapObjectKind::Boss => Some((DiscoveryKind::Enemy, o.enemy_id.clone())),
        TowerMapObjectKind::SpecialLocation => Some((DiscoveryKind::Location, o.special_location_id.clone())),
        TowerMapObjectKind::Hazard => Some((DiscoveryKind::Hazard, o.hazard_id.clone())),
        _ => None,
    }
}

pub open spec fn pairs_view(v: Seq<(DiscoveryKind, String)>) -> Seq<(DiscoveryKind, Seq<char>)> {
    v.map_values(|p: (DiscoveryKind, String)| (p.0, p.1@))
}

fn name_of(data: &GameData, kind: DiscoveryKind, id: &String) -> (s: String)
    ensures
        s@ == discovery_name(*data, (kind, id@)),
{
    match kind {
        DiscoveryKind::Enemy => match data.enemy(id.as_str()) {
            Some(e) => e.name.clone(),
            None => id.clone(),
        },
        DiscoveryKind::Location => match data.tower_special_location(id.as_str()) {
            Some(e) => e.name.clone(),
            None => id.clone(),
        },
        DiscoveryKind::Hazard => match data.tower_hazard(id.as_str()) {
            Some(e) => e.name.clone(),
            None => id.clone(),
        },
    }
}

fn discover(d: &mut TowerDiscoveries, kind: DiscoveryKind, id: &String) -> (r: bool)
    ensures
        r == !guide_has(guide_view(*old(d)), (kind, id@)),
        guide_view(*final(d)) == guide_with(guide_view(*old(d)), (kind, id@)),
        final(d).events == old(d).events,
{
    let r = match kind {
        DiscoveryKind::Enemy => d.discover_enemy(id.as_str()),
        DiscoveryKind::Location => d.discover_special_location(id.as_str()),
        DiscoveryKind::Hazard => d.discover_hazard(id.as_str()),
    };
    proof {
        crate::state::records::lemma_holds_name_contains(old(d).enemies@, id@);
        crate::state::records::lemma_holds_name_contains(old(d).special_locations@, id@);
        crate::state::records::lemma_holds_name_contains(old(d).hazards@, id@);
    }
    r
}

pub open spec fn opt_object(extra: Option<&TowerMapObject>) -> Option<TowerMapObject> {
    match extra {
        Some(o) => Some(*o),
        None => None,
    }
}

/// What recording the things in sight does to a game state (see `record_visible_discoveries`).
pub open spec fn discoveries_recorded(s0: GameState, s1: GameState, data: GameData, extra: Option<TowerMapObject>) -> bool {
    &&& (({
        let (g, names) = discover_all(data, guide_view(s0.tower_discoveries), discovery_candidates(s0, extra));
        &&& guide_view(s1.tower_discoveries) == g
        &&& s1.tower_discoveries.events == s0.tower_discoveries.events
        &&& s1 == (GameState { tower_discoveries: s1.tower_discoveries, tower_run: s1.tower_run, ..s0 })
        &&& match s0.tower_run {
            Some(run) => s1.tower_run matches Some(r2)
                && r2 == (TowerRunState { event_log: r2.event_log, ..run })
                && if names.len() > 0 {
                    r2.event_log@.len() == run.event_log@.len() + 1 && r2.event_log@.drop_last() == run.event_log@
                        && r2.event_log@.last()@ == guide_line(names)
                } else {
                    r2.event_log@ == run.event_log@
                },
            None => s1.tower_run is None,
        }
    }))
}

/// Records in the field guide every visible enemy, landmark and hazard on the
/// run's map, then `extra`; the run logs the names that were new.
pub fn record_visible_discoveries(state: &mut GameState, data: &GameData, extra: Option<&TowerMapObject>)
    requires
        old(state).tower_run matches Some(run) ==> run.map.wf(),
    ensures
        discoveries_recorded(*old(state), *final(state), *data, opt_object(extra)),
{
    let mut cands: Vec<(DiscoveryKind, String)> = Vec::new();
    match &state.tower_run {
        Some(run) => {
            let mut i: usize = 0;
            while i < run.map.objects.len()
                invariant
                    run.map.wf(),
                    i <= run.map.objects@.len(),
                    pairs_view(cands@) == visible_candidates(run.map, run.map.objects@.take(i as int)),
                decreases run.map.objects.len() - i,
            {
                assert(run.map.objects@.take(i as int + 1).drop_last() =~= run.map.objects@.take(i as int));
                let o = &run.map.objects[i];
                if run.map.is_visible(o.x, o.y) {
                    match candidate(o) {
                        Some(c) => {
                            let ghost before = cands@;
                            cands.push(c);
                            assert(pairs_view(cands@) =~= pairs_view(before).push((c.0, c.1@)));
                        },
                        None => {},
                    }
                }
                i += 1;
            }
            assert(run.map.objects@.take(run.map.objects@.len() as int) =~= run.map.objects@);
        },
        None => {
            assert(pairs_view(cands@) =~= Seq::<(DiscoveryKind, Seq<char>)>::empty());
        },
    }
    match extra {
        Some(o) => match candidate(o) {
            Some(c) => {
                let ghost before = cands@;
                cands.push(c);
                assert(pairs_view(cands@) =~= pairs_view(before).push((c.0, c.1@)));
            },
            None => {},
        },
        None => {},
    }
    let ghost all = pairs_view(cands@);
    assert(all == discovery_candidates(*old(state), opt_object(extra)));
    let ghost g0 = guide_view(state.tower_discoveries);
    let mut names = String::new();
    let mut any = false;
    let ghost mut name_seq: Seq<Seq<char>> = Seq::empty();
    let mut j: usize = 0;
    while j < cands.len()
        invariant
            j <= cands@.len(),
            all == pairs_view(cands@),
            (guide_view(state.tower_discoveries), name_seq) == discover_all(*data, g0, all.take(j as int)),
            names@ == joined(name_seq),
            any == (name_seq.len() > 0),
            state.tower_discoveries.events == old(state).tower_discoveries.events,
            *state == (GameState { tower_discoveries: state.tower_discoveries, ..*old(state) }),
        decreases cands.len() - j,
    {
        assert(all.take(j as int + 1).drop_last() =~= all.take(j as int));
        assert(all[j as int] == (cands@[j as int].0, cands@[j as int].1@));
        let kind = cands[j].0;
        if discover(&mut state.tower_discoveries, kind, &cands[j].1) {
            let n = name_of(data, kind, &cands[j].1);
            if any {
                names.append(", ");
            }
            names.append(n.as_str());
            any = true;
            proof {
                let old_seq = name_seq;
                name_seq = name_seq.push(n@);
                assert(name_seq.drop_last() =~= old_seq);
            }
        }
        j += 1;
    }
    assert(all.take(all.len() as int) =~= all);
    if any {
        let mut summary = String::from_str("Field guide updated: ");
        summary.append(names.as_str());
        summary.append(".");
        match state.tower_run.take() {
            Some(mut run) => {
                let ghost before = run.event_log@;
                run.add_event(summary);
                assert(run.event_log@.drop_last() =~= before);
                state.tower_run = Some(run);
            },
            None => {},
        }
    }
}

} // verus!
