//! Camp buildings and the town jobs monsters are assigned to.

use vstd::prelude::*;
use crate::data::game_data::{Keyed, first_keyed, find_keyed, lemma_first_keyed, lemma_first_keyed_update, lemma_first_keyed_push};

verus! {

#[derive(Clone, Copy, Debug, PartialEq, Eq, Structural)]
pub enum TownJobKind {
    Forage,
    Quarry,
    Workshop,
    HatcheryCare,
}

pub struct BuildingLevel {
    pub building_id: String,
    pub level: u32,
}

impl Keyed for BuildingLevel {
    open spec fn key(&self) -> Seq<char> { self.building_id@ }
    fn key_text(&self) -> (s: &str) { self.building_id.as_str() }
}

#[derive(Clone, Copy, Debug, PartialEq, Eq, Structural)]
pub struct JobAssignment {
    pub monster_id: u64,
    pub job: TownJobKind,
}

/// The job of the first assignment for `monster_id`.
pub open spec fn job_of(assignments: Seq<JobAssignment>, monster_id: u64) -> Option<TownJobKind>
    decreases assignments.len(),
{
    if assignments.len() == 0 {
        None
    } else {
        match job_of(assignments.drop_last(), monster_id) {
            Some(job) => Some(job),
            None => if assignments.last().monster_id == monster_id {
                Some(assignments.last().job)
            } else {
                None
            },
        }
    }
}

pub proof fn lemma_job_of(assignments: Seq<JobAssignment>, monster_id: u64)
    ensures
        job_of(assignments, monster_id) is None <==> forall|j: int| 0 <= j < assignments.len() ==> assignments[j].monster_id != monster_id,
    decreases assignments.len(),
{
    if assignments.len() > 0 {
        let prefix = assignments.drop_last();
        lemma_job_of(prefix, monster_id);
        assert forall|j: int| 0 <= j < prefix.len() implies prefix[j] == assignments[j] by {}
    }
}

pub struct TownState {
    pub buildings: Vec<BuildingLevel>,
    pub assignments: Vec<JobAssignment>,
}

impl TownState {
    pub open spec fn spec_building_level(&self, id: Seq<char>) -> u32 {
        match first_keyed(self.buildings@, id) {
            Some(i) => self.buildings@[i].level,
            None => 0,
        }
    }

    pub open spec fn spec_monster_job(&self, monster_id: u64) -> Option<TownJobKind> {
        job_of(self.assignments@, monster_id)
    }

    pub fn new() -> (r: Self)
        ensures
            r.buildings@.len() == 0,
            r.assignments@.len() == 0,
    {
        TownState { buildings: Vec::new(), assignments: Vec::new() }
    }

    pub fn building_level(&self, id: &str) -> (r: u32)
        ensures
            r == self.spec_building_level(id@),
    {
        match find_keyed(&self.buildings, id) {
            Some(i) => self.buildings[i].level,
            None => 0,
        }
    }

    pub fn set_building_level(&mut self, id: &str, level: u32)
        ensures
            final(self).assignments == old(self).assignments,
            forall|k: Seq<char>| #[trigger] final(self).spec_building_level(k) == if k == id@ {
                level
            } else {
                old(self).spec_building_level(k)
            },
    {
        proof {
            lemma_first_keyed(self.buildings@, id@);
        }
        let ghost before = self.buildings@;
        match find_keyed(&self.buildings, id) {
            Some(i) => {
                let bid = self.buildings[i].building_id.clone();
                let item = BuildingLevel { building_id: bid, level };
                let ghost it = item;
                self.buildings.set(i, item);
                proof {
                    assert(self.buildings@ == before.update(i as int, it));
                    assert forall|k: Seq<char>| #[trigger] self.spec_building_level(k) == if k == id@ {
                        level
                    } else {
                        old(self).spec_building_level(k)
                    } by {
                        lemma_first_keyed_update(before, i as int, it, k);
                        lemma_first_keyed(before, k);
                        if k != id@ {
                            if first_keyed(before, k) is Some {
                                let t = first_keyed(before, k).unwrap();
                                assert(t != i);
                                assert(self.buildings@[t] == before[t]);
                            }
                        }
                    }
                }
            },
            None => {
                let item = BuildingLevel { building_id: String::from_str(id), level };
                let ghost it = item;
                self.buildings.push(item);
                proof {
                    assert(self.buildings@ == before.push(it));
                    assert forall|k: Seq<char>| #[trigger] self.spec_building_level(k) == if k == id@ {
                        level
                    } else {
                        old(self).spec_building_level(k)
                    } by {
                        lemma_first_keyed_push(before, it, k);
                        lemma_first_keyed(before, k);
                        if first_keyed(before, k) is Some {
                            let t = first_keyed(before, k).unwrap();
                            assert(self.buildings@[t] == before[t]);
                        }
                    }
                }
            },
        }
    }

    pub fn monster_job(&self, monster_id: u64) -> (r: Option<TownJobKind>)
        ensures
            r == self.spec_monster_job(monster_id),
    {
        let mut i: usize = 0;
        while i < self.assignments.len()
            invariant
                i <= self.assignments@.len(),
                job_of(self.assignments@.take(i as int), monster_id) is None,
            decreases self.assignments.len() - i,
        {
            assert(self.assignments@.take(i as int + 1).drop_last() =~= self.assignments@.take(i as int));
            if self.assignments[i].monster_id == monster_id {
                proof {
                    lemma_job_prefix(self.assignments@, monster_id, i as int + 1);
                }
                return Some(self.assignments[i].job);
            }
            i += 1;
        }
        assert(self.assignments@.take(self.assignments@.len() as int) =~= self.assignments@);
        None
    }

    /// Assigns `job` to the monster, replacing its current job if it has one.
    pub fn set_monster_job(&mut self, monster_id: u64, job: TownJobKind)
        ensures
            final(self).buildings == old(self).buildings,
            final(self).spec_monster_job(monster_id) == Some(job),
            forall|other: u64| other != monster_id ==> #[trigger] final(self).spec_monster_job(other) == old(self).spec_monster_job(other),
    {
        let mut i: usize = 0;
        while i < self.assignments.len()
            invariant
                i <= self.assignments@.len(),
                self.assignments == old(self).assignments,
                self.buildings == old(self).buildings,
                forall|j: int| 0 <= j < i ==> self.assignments@[j].monster_id != monster_id,
            decreases self.assignments.len() - i,
        {
            if self.assignments[i].monster_id == monster_id {
                let ghost before = self.assignments@;
                self.assignments.set(i, JobAssignment { monster_id, job });
                proof {
                    assert forall|other: u64| #[trigger] job_of(self.assignments@, other) == if other == monster_id { Some(job) } else { job_of(before, other) } by {
                        lemma_job_update(before, i as int, JobAssignment { monster_id, job }, other);
                    }
                }
                return;
            }
            i += 1;
        }
        let ghost before = self.assignments@;
        self.assignments.push(JobAssignment { monster_id, job });
        proof {
            lemma_job_of(before, monster_id);
            assert(self.assignments@.drop_last() =~= before);
            assert forall|other: u64| other != monster_id implies #[trigger] job_of(self.assignments@, other) == job_of(before, other) by {
                assert(self.assignments@.drop_last() =~= before);
            }
        }
    }

    /// Removes every job assignment of the monster; true when it had one.
    pub fn clear_monster_job(&mut self, monster_id: u64) -> (r: bool)
        ensures
            final(self).buildings == old(self).buildings,
            r == old(self).spec_monster_job(monster_id) is Some,
            final(self).spec_monster_job(monster_id) is None,
            final(self).assignments@ == old(self).assignments@.filter(|a: JobAssignment| a.monster_id != monster_id),
    {
        let ghost initial = self.assignments@;
        let mut kept: Vec<JobAssignment> = Vec::new();
        let mut removed = false;
        let mut i: usize = 0;
        while i < self.assignments.len()
            invariant
                i <= self.assignments@.len(),
                self.assignments@ == initial,
                kept@ == initial.take(i as int).filter(|a: JobAssignment| a.monster_id != monster_id),
                removed == exists|j: int| 0 <= j < i && initial[j].monster_id == monster_id,
            decreases self.assignments.len() - i,
        {
            let a = self.assignments[i];
            proof {
                assert(initial.take(i as int + 1).drop_last() =~= initial.take(i as int));
                reveal_with_fuel(Seq::<_>::filter, 1);
            }
            if a.monster_id != monster_id {
                kept.push(a);
            } else {
                removed = true;
            }
            i += 1;
        }
        assert(initial.take(initial.len() as int) =~= initial);
        self.assignments = kept;
        proof {
            lemma_job_of(initial, monster_id);
            lemma_job_of(self.assignments@, monster_id);
            assert forall|j: int| 0 <= j < self.assignments@.len() implies self.assignments@[j].monster_id != monster_id by {
                assert(self.assignments@.contains(self.assignments@[j]));
            }
        }
        removed
    }
}

proof fn lemma_job_prefix(assignments: Seq<JobAssignment>, monster_id: u64, n: int)
    requires
        0 <= n <= assignments.len(),
        job_of(assignments.take(n), monster_id) is Some,
    ensures
        job_of(assignments, monster_id) == job_of(assignments.take(n), monster_id),
    decreases assignments.len() - n,
{
    if n < assignments.len() {
        assert(assignments.take(n + 1).drop_last() =~= assignments.take(n));
        lemma_job_prefix(assignments, monster_id, n + 1);
    } else {
        assert(assignments.take(n) =~= assignments);
    }
}

proof fn lemma_job_update(assignments: Seq<JobAssignment>, i: int, x: JobAssignment, id: u64)
    requires
        0 <= i < assignments.len(),
        x.monster_id == assignments[i].monster_id,
        forall|j: int| 0 <= j < i ==> assignments[j].monster_id != x.monster_id,
    ensures
        job_of(assignments.update(i, x), id) == if id == x.monster_id { Some(x.job) } else { job_of(assignments, id) },
    decreases assignments.len(),
{
    let updated = assignments.update(i, x);
    if i == assignments.len() - 1 {
        assert(updated.drop_last() =~= assignments.drop_last());
        lemma_job_of(assignments.drop_last(), x.monster_id);
    } else {
        assert(updated.drop_last() =~= assignments.drop_last().update(i, x));
        lemma_job_update(assignments.drop_last(), i, x, id);
    }
}

} // verus!
