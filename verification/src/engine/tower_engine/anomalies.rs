//! Floor anomalies: which one a floor draws and what it does.

use vstd::prelude::*;
use crate::data::game_data::GameData;
use crate::data::schema::{TowerAnomalyDefinition, TowerAnomalyEffect};
use crate::state::tower_run::TowerRunState;

verus! {

pub open spec fn anomaly_fits(a: TowerAnomalyDefinition, floor: u32) -> bool {
    a.min_floor <= floor && floor <= a.max_floor
}

/// Positions, among the first `n` anomalies, of those that can appear on `floor`.
pub open spec fn eligible_anomalies(all: Seq<TowerAnomalyDefinition>, n: int, floor: u32) -> Seq<usize>
    decreases n,
{
    if n <= 0 {
        Seq::empty()
    } else {
        let prev = eligible_anomalies(all, n - 1, floor);
        if anomaly_fits(all[n - 1], floor) { prev.push((n - 1) as usize) } else { prev }
    }
}

proof fn lemma_eligible_anomalies(all: Seq<TowerAnomalyDefinition>, n: int, floor: u32)
    requires
        n <= all.len(),
        n <= usize::MAX,
    ensures
        eligible_anomalies(all, n, floor).len() <= if n < 0 { 0 } else { n },
        forall|k: int| 0 <= k < eligible_anomalies(all, n, floor).len() ==> #[trigger] eligible_anomalies(all, n, floor)[k] < n,
        forall|k: int| 0 <= k < eligible_anomalies(all, n, floor).len()
            ==> anomaly_fits(all[#[trigger] eligible_anomalies(all, n, floor)[k] as int], floor),
        (exists|i: int| 0 <= i < n && #[trigger] anomaly_fits(all[i], floor)) ==> eligible_anomalies(all, n, floor).len() > 0,
    decreases n,
{
    if n > 0 {
        lemma_eligible_anomalies(all, n - 1, floor);
        if exists|i: int| 0 <= i < n && #[trigger] anomaly_fits(all[i], floor) {
            let i = choose|i: int| 0 <= i < n && #[trigger] anomaly_fits(all[i], floor);
            if i < n - 1 {
                assert(eligible_anomalies(all, n - 1, floor).len() > 0);
            }
        }
    }
}

/// A floor where some anomaly can appear draws one that can appear there.
pub proof fn law_anomaly_fits_floor(data: GameData, floor: u32, seed: u64)
    ensures
        (exists|i: int| 0 <= i < data.tower_anomalies@.len() && #[trigger] anomaly_fits(data.tower_anomalies@[i], floor))
            ==> exists|i: int| 0 <= i < data.tower_anomalies@.len() && #[trigger] anomaly_fits(data.tower_anomalies@[i], floor)
                && data.tower_anomalies@[i].id@ == spec_select_anomaly(data, floor, seed),
{
    let all = data.tower_anomalies@;
    assert(all.len() == data.tower_anomalies.len());
    lemma_eligible_anomalies(all, all.len() as int, floor);
    let idx = eligible_anomalies(all, all.len() as int, floor);
    if idx.len() > 0 {
        let k = (anomaly_draw(seed, floor) % (idx.len() as u64)) as int;
        assert(0 <= k < idx.len());
        let i = idx[k] as int;
        assert(anomaly_fits(all[i], floor));
        assert(all[i].id@ == spec_select_anomaly(data, floor, seed));
    }
}

/// `x` rotated left by 13 bits.
pub open spec fn rotl13(x: u64) -> u64 {
    (x << 13u64) | (x >> 51u64)
}

/// The draw that picks a floor's anomaly.
pub open spec fn anomaly_draw(seed: u64, floor: u32) -> u64 {
    rotl13(seed) ^ (floor as u64).wrapping_mul(0x9E37u64)
}

/// The anomaly a floor gets: the eligible one at the seed's draw, or none.
pub open spec fn spec_select_anomaly(data: GameData, floor: u32, seed: u64) -> Seq<char> {
    let idx = eligible_anomalies(data.tower_anomalies@, data.tower_anomalies@.len() as int, floor);
    if idx.len() == 0 {
        Seq::empty()
    } else {
        data.tower_anomalies@[idx[(anomaly_draw(seed, floor) % (idx.len() as u64)) as int] as int].id@
    }
}

pub fn select_anomaly_id(data: &GameData, floor: u32, seed: u64) -> (s: String)
    ensures
        s@ == spec_select_anomaly(*data, floor, seed),
{
    let ghost all = data.tower_anomalies@;
    let mut eligible: Vec<usize> = Vec::new();
    let mut i: usize = 0;
    while i < data.tower_anomalies.len()
        invariant
            i <= all.len(),
            all == data.tower_anomalies@,
            eligible@ == eligible_anomalies(all, i as int, floor),
        decreases data.tower_anomalies.len() - i,
    {
        let a = &data.tower_anomalies[i];
        if a.min_floor <= floor && floor <= a.max_floor {
            eligible.push(i);
        }
        i += 1;
    }
    if eligible.len() == 0 {
        return String::new();
    }
    proof {
        lemma_eligible_anomalies(all, all.len() as int, floor);
    }
    let draw = ((seed << 13u64) | (seed >> 51u64)) ^ (floor as u64).wrapping_mul(0x9E37u64);
    let k = (draw % (eligible.len() as u64)) as usize;
    data.tower_anomalies[eligible[k]].id.clone()
}

pub open spec fn spec_anomaly_effect(run: TowerRunState, data: GameData) -> Option<TowerAnomalyEffect> {
    match data.spec_tower_anomaly(run.anomaly_id@) {
        Some(a) => Some(a.effect),
        None => None,
    }
}

/// The effect of the run's anomaly, if it names a known one.
pub fn anomaly_effect(run: &TowerRunState, data: &GameData) -> (r: Option<TowerAnomalyEffect>)
    ensures
        r == spec_anomaly_effect(*run, *data),
{
    match data.tower_anomaly(run.anomaly_id.as_str()) {
        Some(a) => Some(a.effect),
        None => None,
    }
}

} // verus!
