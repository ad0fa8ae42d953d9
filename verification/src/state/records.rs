//! Long-lived records: the activity log, story flags, the field guide and tower progress.

use vstd::prelude::*;
use crate::text::same_text;

verus! {

pub struct ActivityEntry {
    pub day: u32,
    pub text: String,
}

pub struct ActivityLog {
    pub entries: Vec<ActivityEntry>,
}

impl ActivityLog {
    pub fn new() -> (r: Self)
        ensures
            r.entries@.len() == 0,
    {
        ActivityLog { entries: Vec::new() }
    }

    /// Records `text` under `day`.
    pub fn add(&mut self, day: u32, text: String)
        ensures
            final(self).entries@ == old(self).entries@.push(ActivityEntry { day, text }),
    {
        self.entries.push(ActivityEntry { day, text });
    }
}

/// Whether a list of names holds `name`.
pub open spec fn holds_name(names: Seq<String>, name: Seq<char>) -> bool {
    exists|i: int| 0 <= i < names.len() && names[i]@ == name
}

/// Whether a list of names holds `name`.
pub fn contains_name(names: &Vec<String>, name: &str) -> (r: bool)
    ensures
        r == holds_name(names@, name@),
{
    let mut i: usize = 0;
    while i < names.len()
        invariant
            i <= names@.len(),
            forall|j: int| 0 <= j < i ==> names@[j]@ != name@,
        decreases names.len() - i,
    {
        if same_text(names[i].as_str(), name) {
            return true;
        }
        i += 1;
    }
    false
}

/// Adds `name` to the list unless it is already there; true when it was added.
pub fn insert_name(names: &mut Vec<String>, name: &str) -> (r: bool)
    ensures
        r == !holds_name(old(names)@, name@),
        r ==> final(names)@.len() == old(names)@.len() + 1 && final(names)@.drop_last() == old(names)@ && final(names)@.last()@ == name@,
        !r ==> final(names)@ == old(names)@,
{
    if contains_name(names, name) {
        false
    } else {
        let ghost before = names@;
        names.push(String::from_str(name));
        assert(names@.drop_last() =~= before);
        true
    }
}

/// A list of names as their texts.
pub open spec fn name_list(names: Seq<String>) -> Seq<Seq<char>> {
    names.map_values(|s: String| s@)
}

/// `name` added to a list of texts unless it is already there.
pub open spec fn with_name(v: Seq<Seq<char>>, name: Seq<char>) -> Seq<Seq<char>> {
    if v.contains(name) { v } else { v.push(name) }
}

pub proof fn lemma_holds_name_contains(names: Seq<String>, name: Seq<char>)
    ensures
        holds_name(names, name) == name_list(names).contains(name),
{
    if holds_name(names, name) {
        let i = choose|i: int| 0 <= i < names.len() && names[i]@ == name;
        assert(name_list(names)[i] == name);
    }
    if name_list(names).contains(name) {
        let i = choose|i: int| 0 <= i < name_list(names).len() && name_list(names)[i] == name;
        assert(names[i]@ == name);
    }
}

pub proof fn lemma_name_list_insert(before: Seq<String>, after: Seq<String>, name: Seq<char>, added: bool)
    requires
        added == !holds_name(before, name),
        added ==> after.len() == before.len() + 1 && after.drop_last() == before && after.last()@ == name,
        !added ==> after == before,
    ensures
        name_list(after) == with_name(name_list(before), name),
        holds_name(before, name) == name_list(before).contains(name),
{
    if holds_name(before, name) {
        let i = choose|i: int| 0 <= i < before.len() && before[i]@ == name;
        assert(name_list(before)[i] == name);
    }
    if name_list(before).contains(name) {
        let i = choose|i: int| 0 <= i < name_list(before).len() && name_list(before)[i] == name;
        assert(before[i]@ == name);
    }
    if added {
        assert(name_list(after) =~= name_list(before).push(name));
    }
}

pub struct StoryFlags {
    pub flags: Vec<String>,
}

impl StoryFlags {
    pub fn new() -> (r: Self)
        ensures
            r.flags@.len() == 0,
    {
        StoryFlags { flags: Vec::new() }
    }

    /// Raises a story flag; true when it was not raised before.
    pub fn add(&mut self, flag: &str) -> (r: bool)
        ensures
            r == !holds_name(old(self).flags@, flag@),
            holds_name(final(self).flags@, flag@),
            !r ==> final(self).flags@ == old(self).flags@,
            forall|other: Seq<char>| other != flag@ ==> (#[trigger] holds_name(final(self).flags@, other) == holds_name(old(self).flags@, other)),
    {
        let r = insert_name(&mut self.flags, flag);
        proof {
            lemma_insert_name_holds(old(self).flags@, self.flags@, flag@, r);
        }
        r
    }
}

proof fn lemma_insert_name_holds(before: Seq<String>, after: Seq<String>, name: Seq<char>, added: bool)
    requires
        added == !holds_name(before, name),
        added ==> after.len() == before.len() + 1 && after.drop_last() == before && after.last()@ == name,
        !added ==> after == before,
    ensures
        holds_name(after, name),
        forall|other: Seq<char>| other != name ==> (#[trigger] holds_name(after, other) == holds_name(before, other)),
{
    if added {
        assert(after[after.len() - 1]@ == name);
        assert forall|other: Seq<char>| other != name implies (#[trigger] holds_name(after, other) == holds_name(before, other)) by {
            if holds_name(before, other) {
                let i = choose|i: int| 0 <= i < before.len() && before[i]@ == other;
                assert(after[i] == after.drop_last()[i]);
            }
            if holds_name(after, other) {
                let i = choose|i: int| 0 <= i < after.len() && after[i]@ == other;
                assert(i < after.len() - 1);
                assert(after.drop_last()[i] == after[i]);
            }
        }
    }
}

/// The tower's field guide: what the party has seen.
pub struct TowerDiscoveries {
    pub enemies: Vec<String>,
    pub special_locations: Vec<String>,
    pub hazards: Vec<String>,
    pub events: Vec<String>,
}

impl TowerDiscoveries {
    pub fn new() -> (r: Self)
        ensures
            r.enemies@.len() == 0,
            r.special_locations@.len() == 0,
            r.hazards@.len() == 0,
            r.events@.len() == 0,
    {
        TowerDiscoveries { enemies: Vec::new(), special_locations: Vec::new(), hazards: Vec::new(), events: Vec::new() }
    }

    /// Records an enemy; true when it is new to the guide.
    pub fn discover_enemy(&mut self, id: &str) -> (r: bool)
        ensures
            name_list(final(self).enemies@) == with_name(name_list(old(self).enemies@), id@),
            r == !holds_name(old(self).enemies@, id@),
            holds_name(final(self).enemies@, id@),
            final(self).special_locations == old(self).special_locations,
            final(self).hazards == old(self).hazards,
            final(self).events == old(self).events,
    {
        let r = insert_name(&mut self.enemies, id);
        proof {
            lemma_insert_name_holds(old(self).enemies@, self.enemies@, id@, r);
            lemma_name_list_insert(old(self).enemies@, self.enemies@, id@, r);
        }
        r
    }

    /// Records a landmark; true when it is new to the guide.
    pub fn discover_special_location(&mut self, id: &str) -> (r: bool)
        ensures
            name_list(final(self).special_locations@) == with_name(name_list(old(self).special_locations@), id@),
            r == !holds_name(old(self).special_locations@, id@),
            holds_name(final(self).special_locations@, id@),
            final(self).enemies == old(self).enemies,
            final(self).hazards == old(self).hazards,
            final(self).events == old(self).events,
    {
        let r = insert_name(&mut self.special_locations, id);
        proof {
            lemma_insert_name_holds(old(self).special_locations@, self.special_locations@, id@, r);
            lemma_name_list_insert(old(self).special_locations@, self.special_locations@, id@, r);
        }
        r
    }

    /// Records a hazard; true when it is new to the guide.
    pub fn discover_hazard(&mut self, id: &str) -> (r: bool)
        ensures
            name_list(final(self).hazards@) == with_name(name_list(old(self).hazards@), id@),
            r == !holds_name(old(self).hazards@, id@),
            holds_name(final(self).hazards@, id@),
            final(self).enemies == old(self).enemies,
            final(self).special_locations == old(self).special_locations,
            final(self).events == old(self).events,
    {
        let r = insert_name(&mut self.hazards, id);
        proof {
            lemma_insert_name_holds(old(self).hazards@, self.hazards@, id@, r);
            lemma_name_list_insert(old(self).hazards@, self.hazards@, id@, r);
        }
        r
    }

    /// Records a landmark approach; true when it is new to the guide.
    pub fn discover_event(&mut self, id: &str) -> (r: bool)
        ensures
            name_list(final(self).events@) == with_name(name_list(old(self).events@), id@),
            r == !holds_name(old(self).events@, id@),
            holds_name(final(self).events@, id@),
            final(self).enemies == old(self).enemies,
            final(self).special_locations == old(self).special_locations,
            final(self).hazards == old(self).hazards,
    {
        let r = insert_name(&mut self.events, id);
        proof {
            lemma_insert_name_holds(old(self).events@, self.events@, id@, r);
            lemma_name_list_insert(old(self).events@, self.events@, id@, r);
        }
        r
    }
}

#[derive(Clone, Copy, Debug, PartialEq, Eq, Structural)]
pub struct TowerProgress {
    pub best_floor: u32,
    pub unlocked_floor: u32,
}

} // verus!
