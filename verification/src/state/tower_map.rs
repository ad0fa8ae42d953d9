//! The generated map of one tower floor: tiles, fog of war, rooms and objects.

use vstd::prelude::*;

verus! {

/// The largest side a floor map may have. Generated floors are at most 34
/// by 22 tiles; the bound keeps a grid under a million tiles, so that a
/// tile's index `y * width + x` fits in a `usize` on every target.
pub const MAX_MAP_SIDE: u32 = 1024;

#[derive(Clone, Copy, Debug, PartialEq, Eq, Structural)]
pub enum TowerTileKind {
    Wall,
    Floor,
    Corridor,
}

#[derive(Clone, Copy, Debug, PartialEq, Eq, Structural)]
pub enum TowerTileVisibility {
    Hidden,
    Explored,
    Visible,
}

#[derive(Clone, Copy, Debug, PartialEq, Eq, Structural)]
pub enum TowerRoomKind {
    Plain,
    Encounter,
    Cache,
    Nest,
    Landmark,
    Hazard,
    Camp,
    Traversal,
}

#[derive(Clone, Copy, Debug, PartialEq, Eq, Structural)]
pub struct TowerRoom {
    pub start_x: u32,
    pub start_y: u32,
    pub width: u32,
    pub height: u32,
}

impl TowerRoom {
    pub open spec fn spec_contains(self, x: u32, y: u32) -> bool {
        self.start_x <= x < self.start_x + self.width && self.start_y <= y < self.start_y + self.height
    }

    pub open spec fn spec_center(self) -> (u32, u32) {
        ((self.start_x + self.width / 2) as u32, (self.start_y + self.height / 2) as u32)
    }

    pub fn contains(&self, x: u32, y: u32) -> (r: bool)
        ensures
            r == self.spec_contains(x, y),
    {
        x >= self.start_x && (x - self.start_x) < self.width && y >= self.start_y && (y - self.start_y) < self.height
    }

    pub fn center(&self) -> (c: (u32, u32))
        requires
            self.start_x + self.width <= u32::MAX,
            self.start_y + self.height <= u32::MAX,
        ensures
            c == self.spec_center(),
    {
        (self.start_x + self.width / 2, self.start_y + self.height / 2)
    }

    /// Whether the rooms overlap once this one is grown by one tile on every side.
    pub fn intersects_padded(&self, other: TowerRoom) -> (r: bool)
        requires
            self.start_x + self.width + 1 <= u32::MAX,
            self.start_y + self.height + 1 <= u32::MAX,
            other.start_x + other.width <= u32::MAX,
            other.start_y + other.height <= u32::MAX,
        ensures
            r == (self.start_x <= other.start_x + other.width && other.start_x <= self.start_x + self.width + 1
                && self.start_y <= other.start_y + other.height && other.start_y <= self.start_y + self.height + 1),
    {
        self.start_x <= other.start_x + other.width && other.start_x <= self.start_x + self.width + 1
            && self.start_y <= other.start_y + other.height && other.start_y <= self.start_y + self.height + 1
    }

    /// The tile `random_inner` draws from generator state `state`, and the
    /// state after the draws.
    pub open spec fn spec_random_inner(self, state: u64) -> ((u32, u32), u64) {
        let lo_x = (self.start_x + 1) as u32;
        let lo_y = (self.start_y + 1) as u32;
        let hi_x = if self.width >= 2 { (self.start_x + self.width - 1) as u32 } else { lo_x };
        let hi_y = if self.height >= 2 { (self.start_y + self.height - 1) as u32 } else { lo_y };
        let dx = spec_range(lo_x, hi_x, state);
        let dy = spec_range(lo_y, hi_y, dx.1);
        ((dx.0, dy.0), dy.1)
    }

    /// A tile strictly inside the room's walls, drawn from `rng`.
    pub fn random_inner(&self, rng: &mut TowerMapRng) -> (p: (u32, u32))
        requires
            self.start_x + self.width + 1 <= u32::MAX,
            self.start_y + self.height + 1 <= u32::MAX,
        ensures
            (p, final(rng).state) == self.spec_random_inner(old(rng).state),
            self.width >= 3 ==> self.start_x + 1 <= p.0 < self.start_x + self.width - 1,
            self.width < 3 ==> p.0 == self.start_x + 1,
            self.height >= 3 ==> self.start_y + 1 <= p.1 < self.start_y + self.height - 1,
            self.height < 3 ==> p.1 == self.start_y + 1,
    {
        let lo_x = self.start_x + 1;
        let lo_y = self.start_y + 1;
        let hi_x = if self.width >= 2 { self.start_x + self.width - 1 } else { lo_x };
        let hi_y = if self.height >= 2 { self.start_y + self.height - 1 } else { lo_y };
        let x = rng.range(lo_x, hi_x);
        let y = rng.range(lo_y, hi_y);
        (x, y)
    }
}

/// The deterministic generator used to lay out floors.
pub struct TowerMapRng {
    pub state: u64,
}

/// One step of the generator's linear congruential sequence.
pub open spec fn rng_step(s: u64) -> u64 {
    s.wrapping_mul(6364136223846793005u64).wrapping_add(1442695040888963407u64)
}

/// The number `range(lo, hi)` hands out from generator state `state`, and
/// the state after it.
pub open spec fn spec_range(lo: u32, hi: u32, state: u64) -> (u32, u64) {
    if hi > lo {
        ((lo + rng_draw(rng_step(state)) % ((hi - lo) as u32)) as u32, rng_step(state))
    } else {
        (lo, state)
    }
}

/// The 32 bits the generator hands out from a state.
#[verifier::opaque]
pub open spec fn rng_draw(state: u64) -> u32 {
    (state >> 32u64) as u32
}

impl TowerMapRng {
    pub fn new(seed: u64) -> (r: Self)
        ensures
            r.state == seed ^ 0x9E37_79B9_7F4A_7C15u64,
    {
        TowerMapRng { state: seed ^ 0x9E37_79B9_7F4A_7C15u64 }
    }

    /// The next 32 random bits.
    pub fn next_u32(&mut self) -> (r: u32)
        ensures
            final(self).state == rng_step(old(self).state),
            r == rng_draw(final(self).state),
    {
        self.state = self.state.wrapping_mul(6364136223846793005u64).wrapping_add(1442695040888963407u64);
        proof {
            reveal(rng_draw);
        }
        (self.state >> 32u64) as u32
    }

    /// A number in `lo..hi`, or `lo` when the range is empty.
    pub fn range(&mut self, lo: u32, hi: u32) -> (r: u32)
        ensures
            hi > lo ==> lo <= r < hi && final(self).state == rng_step(old(self).state)
                && r == lo + rng_draw(final(self).state) % ((hi - lo) as u32),
            hi <= lo ==> r == lo && final(self).state == old(self).state,
            (r, final(self).state) == spec_range(lo, hi, old(self).state),
    {
        if hi <= lo {
            lo
        } else {
            let v = self.next_u32();
            lo + v % (hi - lo)
        }
    }

    /// True with probability `numerator / denominator`.
    pub fn chance(&mut self, numerator: u32, denominator: u32) -> (r: bool)
        ensures
            denominator > 0 ==> final(self).state == rng_step(old(self).state)
                && r == (rng_draw(final(self).state) % denominator < numerator),
            denominator == 0 ==> !r && final(self).state == old(self).state,
    {
        if denominator == 0 {
            false
        } else {
            let v = self.next_u32();
            v % denominator < numerator
        }
    }
}

#[derive(Clone, Copy, Debug, PartialEq, Eq, Structural)]
pub enum TowerMapObjectKind {
    Loot,
    SecretCache,
    Egg,
    Enemy,
    Boss,
    SpecialLocation,
    Hazard,
    Stairs,
    Exit,
}

pub struct TowerMapObject {
    pub kind: TowerMapObjectKind,
    pub x: u32,
    pub y: u32,
    pub resource_id: String,
    pub amount: i32,
    pub egg_type_id: String,
    pub hatch_days: u32,
    pub palette_seed: u64,
    pub enemy_id: String,
    pub special_location_id: String,
    pub event_id: String,
    pub hazard_id: String,
    pub wandering: bool,
    pub revealed: bool,
}

impl TowerMapObject {
    /// An object of `kind` at the origin with every other field blank.
    pub open spec fn spec_blank(self, kind: TowerMapObjectKind) -> bool {
        &&& self.kind == kind
        &&& self.x == 0
        &&& self.y == 0
        &&& self.resource_id@.len() == 0
        &&& self.amount == 0
        &&& self.egg_type_id@.len() == 0
        &&& self.hatch_days == 0
        &&& self.palette_seed == 0
        &&& self.enemy_id@.len() == 0
        &&& self.special_location_id@.len() == 0
        &&& self.event_id@.len() == 0
        &&& self.hazard_id@.len() == 0
        &&& !self.wandering
        &&& !self.revealed
    }

    pub fn empty(kind: TowerMapObjectKind) -> (o: Self)
        ensures
            o.spec_blank(kind),
    {
        TowerMapObject {
            kind,
            x: 0,
            y: 0,
            resource_id: String::new(),
            amount: 0,
            egg_type_id: String::new(),
            hatch_days: 0,
            palette_seed: 0,
            enemy_id: String::new(),
            special_location_id: String::new(),
            event_id: String::new(),
            hazard_id: String::new(),
            wandering: false,
            revealed: false,
        }
    }

    pub fn stairs(x: u32, y: u32) -> (o: Self)
        ensures
            o.kind == TowerMapObjectKind::Stairs,
            o.x == x,
            o.y == y,
            o.enemy_id@.len() == 0,
            !o.wandering,
    {
        let mut o = Self::empty(TowerMapObjectKind::Stairs);
        o.x = x;
        o.y = y;
        o
    }

    pub fn exit(x: u32, y: u32) -> (o: Self)
        ensures
            o.kind == TowerMapObjectKind::Exit,
            o.x == x,
            o.y == y,
            o.enemy_id@.len() == 0,
            !o.wandering,
    {
        let mut o = Self::empty(TowerMapObjectKind::Exit);
        o.x = x;
        o.y = y;
        o
    }

    pub fn enemy(enemy_id: &str) -> (o: Self)
        ensures
            o.kind == TowerMapObjectKind::Enemy,
            o.enemy_id@ == enemy_id@,
            o.x == 0,
            o.y == 0,
            !o.wandering,
    {
        let mut o = Self::empty(TowerMapObjectKind::Enemy);
        o.enemy_id = String::from_str(enemy_id);
        o
    }

    pub fn boss(enemy_id: &str) -> (o: Self)
        ensures
            o.kind == TowerMapObjectKind::Boss,
            o.enemy_id@ == enemy_id@,
            !o.wandering,
    {
        let mut o = Self::empty(TowerMapObjectKind::Boss);
        o.enemy_id = String::from_str(enemy_id);
        o
    }

    pub fn special_location(location_id: &str, event_id: &str) -> (o: Self)
        ensures
            o.kind == TowerMapObjectKind::SpecialLocation,
            o.special_location_id@ == location_id@,
            o.event_id@ == event_id@,
            o.enemy_id@.len() == 0,
            !o.wandering,
    {
        let mut o = Self::empty(TowerMapObjectKind::SpecialLocation);
        o.special_location_id = String::from_str(location_id);
        o.event_id = String::from_str(event_id);
        o
    }

    pub fn hazard(hazard_id: &str) -> (o: Self)
        ensures
            o.kind == TowerMapObjectKind::Hazard,
            o.hazard_id@ == hazard_id@,
            o.enemy_id@.len() == 0,
            !o.wandering,
    {
        let mut o = Self::empty(TowerMapObjectKind::Hazard);
        o.hazard_id = String::from_str(hazard_id);
        o
    }
}

pub struct TowerMapState {
    pub width: u32,
    pub height: u32,
    pub floor: u32,
    pub seed: u64,
    pub tiles: Vec<TowerTileKind>,
    pub visibility: Vec<TowerTileVisibility>,
    pub rooms: Vec<TowerRoom>,
    pub room_kinds: Vec<TowerRoomKind>,
    pub objects: Vec<TowerMapObject>,
    pub player_x: u32,
    pub player_y: u32,
    pub start_x: u32,
    pub start_y: u32,
}

/// The first object standing on tile `(x, y)`.
pub open spec fn first_object_at(objects: Seq<TowerMapObject>, x: u32, y: u32) -> Option<int>
    decreases objects.len(),
{
    if objects.len() == 0 {
        None
    } else {
        match first_object_at(objects.drop_last(), x, y) {
            Some(i) => Some(i),
            None => if objects.last().x == x && objects.last().y == y {
                Some(objects.len() - 1)
            } else {
                None
            },
        }
    }
}

pub proof fn lemma_first_object_at(objects: Seq<TowerMapObject>, x: u32, y: u32)
    ensures
        match first_object_at(objects, x, y) {
            Some(i) => 0 <= i < objects.len() && objects[i].x == x && objects[i].y == y
                && forall|j: int| 0 <= j < i ==> !(objects[j].x == x && objects[j].y == y),
            None => forall|j: int| 0 <= j < objects.len() ==> !(objects[j].x == x && objects[j].y == y),
        },
    decreases objects.len(),
{
    if objects.len() > 0 {
        let prefix = objects.drop_last();
        lemma_first_object_at(prefix, x, y);
        assert forall|j: int| 0 <= j < prefix.len() implies prefix[j] == objects[j] by {}
    }
}

proof fn lemma_prefix_object_at(objects: Seq<TowerMapObject>, x: u32, y: u32, n: int)
    requires
        0 <= n <= objects.len(),
        first_object_at(objects.take(n), x, y) is Some,
    ensures
        first_object_at(objects, x, y) == first_object_at(objects.take(n), x, y),
    decreases objects.len() - n,
{
    if n < objects.len() {
        assert(objects.take(n + 1).drop_last() =~= objects.take(n));
        lemma_prefix_object_at(objects, x, y, n + 1);
    } else {
        assert(objects.take(n) =~= objects);
    }
}

/// Rooms whose extent stays inside the largest map.
pub open spec fn rooms_fit(rooms: Seq<TowerRoom>) -> bool {
    forall|i: int| 0 <= i < rooms.len() ==> #[trigger] rooms[i].start_x + rooms[i].width <= MAX_MAP_SIDE
        && rooms[i].start_y + rooms[i].height <= MAX_MAP_SIDE
}

impl TowerMapState {
    /// The map's dimensions agree with its tile grid, and its rooms lie
    /// within the largest map.
    pub open spec fn wf(&self) -> bool {
        &&& self.width <= MAX_MAP_SIDE
        &&& self.height <= MAX_MAP_SIDE
        &&& self.tiles@.len() == self.width * self.height
        &&& rooms_fit(self.rooms@)
    }

    pub open spec fn in_bounds(&self, x: u32, y: u32) -> bool {
        x < self.width && y < self.height
    }

    pub open spec fn index_of(&self, x: u32, y: u32) -> int {
        y * self.width + x
    }

    pub open spec fn spec_tile(&self, x: u32, y: u32) -> TowerTileKind {
        if self.in_bounds(x, y) && 0 <= self.index_of(x, y) < self.tiles@.len() {
            self.tiles@[self.index_of(x, y)]
        } else {
            TowerTileKind::Wall
        }
    }

    pub open spec fn spec_passable(&self, x: u32, y: u32) -> bool {
        self.in_bounds(x, y) && self.spec_tile(x, y) != TowerTileKind::Wall
    }

    pub open spec fn spec_visibility(&self, x: u32, y: u32) -> TowerTileVisibility {
        if self.in_bounds(x, y) && 0 <= self.index_of(x, y) < self.visibility@.len() {
            self.visibility@[self.index_of(x, y)]
        } else {
            TowerTileVisibility::Hidden
        }
    }

    pub open spec fn spec_object_index_at(&self, x: u32, y: u32) -> Option<int> {
        first_object_at(self.objects@, x, y)
    }

    /// A walled, fully hidden map with no rooms or objects; the party stands at the origin.
    pub fn new(width: u32, height: u32, floor: u32, seed: u64) -> (m: Self)
        requires
            width <= MAX_MAP_SIDE,
            height <= MAX_MAP_SIDE,
        ensures
            m.wf(),
            m.width == width,
            m.height == height,
            m.floor == floor,
            m.seed == seed,
            forall|i: int| 0 <= i < m.tiles@.len() ==> m.tiles@[i] == TowerTileKind::Wall,
            m.visibility@.len() == m.tiles@.len(),
            forall|i: int| 0 <= i < m.visibility@.len() ==> m.visibility@[i] == TowerTileVisibility::Hidden,
            m.rooms@.len() == 0,
            m.room_kinds@.len() == 0,
            m.objects@.len() == 0,
            m.player_x == 0,
            m.player_y == 0,
            m.start_x == 0,
            m.start_y == 0,
    {
        proof {
            assert(width * height <= MAX_MAP_SIDE * MAX_MAP_SIDE) by (nonlinear_arith)
                requires width <= MAX_MAP_SIDE, height <= MAX_MAP_SIDE;
        }
        let count: usize = (width as usize) * (height as usize);
        let mut tiles: Vec<TowerTileKind> = Vec::new();
        let mut visibility: Vec<TowerTileVisibility> = Vec::new();
        let mut i: usize = 0;
        while i < count
            invariant
                i <= count,
                tiles@.len() == i,
                visibility@.len() == i,
                forall|j: int| 0 <= j < i ==> tiles@[j] == TowerTileKind::Wall,
                forall|j: int| 0 <= j < i ==> visibility@[j] == TowerTileVisibility::Hidden,
            decreases count - i,
        {
            tiles.push(TowerTileKind::Wall);
            visibility.push(TowerTileVisibility::Hidden);
            i += 1;
        }
        TowerMapState {
            width,
            height,
            floor,
            seed,
            tiles,
            visibility,
            rooms: Vec::new(),
            room_kinds: Vec::new(),
            objects: Vec::new(),
            player_x: 0,
            player_y: 0,
            start_x: 0,
            start_y: 0,
        }
    }

    pub fn is_empty(&self) -> (r: bool)
        ensures
            r == (self.tiles@.len() == 0),
    {
        self.tiles.len() == 0
    }

    fn tile_index(&self, x: u32, y: u32) -> (i: usize)
        requires
            self.wf(),
            self.in_bounds(x, y),
        ensures
            i as int == self.index_of(x, y),
            i < self.tiles@.len(),
    {
        proof {
            assert(y * self.width + x < self.width * self.height) by (nonlinear_arith)
                requires y < self.height, x < self.width;
            assert(self.width * self.height <= MAX_MAP_SIDE * MAX_MAP_SIDE) by (nonlinear_arith)
                requires self.width <= MAX_MAP_SIDE, self.height <= MAX_MAP_SIDE;
        }
        (y as usize) * (self.width as usize) + (x as usize)
    }

    pub fn tile_at(&self, x: u32, y: u32) -> (t: TowerTileKind)
        requires
            self.wf(),
        ensures
            t == self.spec_tile(x, y),
    {
        if x < self.width && y < self.height {
            self.tiles[self.tile_index(x, y)]
        } else {
            TowerTileKind::Wall
        }
    }

    pub fn is_passable(&self, x: u32, y: u32) -> (r: bool)
        requires
            self.wf(),
        ensures
            r == self.spec_passable(x, y),
    {
        x < self.width && y < self.height && self.tile_at(x, y) != TowerTileKind::Wall
    }

    /// Sets one tile; tiles outside the map are ignored.
    pub fn set_tile(&mut self, x: u32, y: u32, kind: TowerTileKind)
        requires
            old(self).wf(),
        ensures
            final(self).wf(),
            final(self).width == old(self).width,
            final(self).height == old(self).height,
            final(self).floor == old(self).floor,
            final(self).seed == old(self).seed,
            final(self).visibility == old(self).visibility,
            final(self).rooms == old(self).rooms,
            final(self).room_kinds == old(self).room_kinds,
            final(self).objects == old(self).objects,
            final(self).player_x == old(self).player_x,
            final(self).player_y == old(self).player_y,
            final(self).start_x == old(self).start_x,
            final(self).start_y == old(self).start_y,
            final(self).tiles@ == if old(self).in_bounds(x, y) {
                old(self).tiles@.update(old(self).index_of(x, y), kind)
            } else {
                old(self).tiles@
            },
    {
        if x < self.width && y < self.height {
            let i = self.tile_index(x, y);
            self.tiles.set(i, kind);
        }
    }

    /// Makes the fog-of-war grid match the tile grid, hiding every tile when it
    /// did not; true when it had to be rebuilt.
    pub fn ensure_visibility(&mut self) -> (r: bool)
        ensures
            r == (old(self).visibility@.len() != old(self).tiles@.len()),
            final(self).visibility@.len() == final(self).tiles@.len(),
            r ==> forall|i: int| 0 <= i < final(self).visibility@.len() ==> final(self).visibility@[i] == TowerTileVisibility::Hidden,
            !r ==> final(self).visibility == old(self).visibility,
            final(self).tiles == old(self).tiles,
            final(self).width == old(self).width,
            final(self).height == old(self).height,
            final(self).floor == old(self).floor,
            final(self).seed == old(self).seed,
            final(self).rooms == old(self).rooms,
            final(self).room_kinds == old(self).room_kinds,
            final(self).objects == old(self).objects,
            final(self).player_x == old(self).player_x,
            final(self).player_y == old(self).player_y,
            final(self).start_x == old(self).start_x,
            final(self).start_y == old(self).start_y,
    {
        if self.visibility.len() == self.tiles.len() {
            return false;
        }
        let mut visibility: Vec<TowerTileVisibility> = Vec::new();
        let mut i: usize = 0;
        while i < self.tiles.len()
            invariant
                i <= self.tiles@.len(),
                visibility@.len() == i,
                forall|j: int| 0 <= j < i ==> visibility@[j] == TowerTileVisibility::Hidden,
            decreases self.tiles.len() - i,
        {
            visibility.push(TowerTileVisibility::Hidden);
            i += 1;
        }
        self.visibility = visibility;
        true
    }

    pub fn visibility_at(&self, x: u32, y: u32) -> (v: TowerTileVisibility)
        requires
            self.wf(),
        ensures
            v == self.spec_visibility(x, y),
    {
        if x < self.width && y < self.height {
            let i = self.tile_index(x, y);
            if i < self.visibility.len() {
                return self.visibility[i];
            }
        }
        TowerTileVisibility::Hidden
    }

    pub fn is_visible(&self, x: u32, y: u32) -> (r: bool)
        requires
            self.wf(),
        ensures
            r == (self.spec_visibility(x, y) == TowerTileVisibility::Visible),
    {
        self.visibility_at(x, y) == TowerTileVisibility::Visible
    }

    /// Whether the party has ever seen the tile.
    pub fn is_discovered(&self, x: u32, y: u32) -> (r: bool)
        requires
            self.wf(),
        ensures
            r == (self.spec_visibility(x, y) != TowerTileVisibility::Hidden),
    {
        self.visibility_at(x, y) != TowerTileVisibility::Hidden
    }

    /// Sets the fog of war of one tile; tiles outside the grid are ignored.
    pub fn set_visibility(&mut self, x: u32, y: u32, visibility: TowerTileVisibility)
        requires
            old(self).wf(),
        ensures
            final(self).wf(),
            final(self).tiles == old(self).tiles,
            final(self).width == old(self).width,
            final(self).height == old(self).height,
            final(self).floor == old(self).floor,
            final(self).seed == old(self).seed,
            final(self).rooms == old(self).rooms,
            final(self).room_kinds == old(self).room_kinds,
            final(self).objects == old(self).objects,
            final(self).player_x == old(self).player_x,
            final(self).player_y == old(self).player_y,
            final(self).start_x == old(self).start_x,
            final(self).start_y == old(self).start_y,
            final(self).visibility@ == if old(self).in_bounds(x, y) && old(self).index_of(x, y) < old(self).visibility@.len() {
                old(self).visibility@.update(old(self).index_of(x, y), visibility)
            } else {
                old(self).visibility@
            },
    {
        if x < self.width && y < self.height {
            let i = self.tile_index(x, y);
            if i < self.visibility.len() {
                self.visibility.set(i, visibility);
            }
        }
    }

    /// The position of the first object on tile `(x, y)`.
    pub fn object_index_at(&self, x: u32, y: u32) -> (r: Option<usize>)
        ensures
            match r {
                Some(i) => self.spec_object_index_at(x, y) == Some(i as int),
                None => self.spec_object_index_at(x, y) == None::<int>,
            },
            r matches Some(i) ==> i < self.objects@.len(),
    {
        let mut i: usize = 0;
        while i < self.objects.len()
            invariant
                i <= self.objects@.len(),
                first_object_at(self.objects@.take(i as int), x, y) == None::<int>,
            decreases self.objects.len() - i,
        {
            assert(self.objects@.take(i as int + 1).drop_last() =~= self.objects@.take(i as int));
            if self.objects[i].x == x && self.objects[i].y == y {
                assert(self.objects@.take(i as int + 1).last() == self.objects@[i as int]);
                proof {
                    lemma_prefix_object_at(self.objects@, x, y, i as int + 1);
                }
                return Some(i);
            }
            i += 1;
        }
        assert(self.objects@.take(self.objects@.len() as int) =~= self.objects@);
        None
    }

    pub fn object_at(&self, x: u32, y: u32) -> (r: Option<&TowerMapObject>)
        ensures
            match self.spec_object_index_at(x, y) {
                Some(i) => r == Some(&self.objects@[i]),
                None => r is None,
            },
    {
        match self.object_index_at(x, y) {
            Some(i) => Some(&self.objects[i]),
            None => None,
        }
    }

    pub open spec fn spec_room_kind(&self, index: int) -> TowerRoomKind {
        if 0 <= index < self.room_kinds@.len() {
            self.room_kinds@[index]
        } else {
            TowerRoomKind::Plain
        }
    }

    pub fn room_kind(&self, index: usize) -> (k: TowerRoomKind)
        ensures
            k == self.spec_room_kind(index as int),
    {
        if index < self.room_kinds.len() {
            self.room_kinds[index]
        } else {
            TowerRoomKind::Plain
        }
    }

    /// Gives every room a kind, marking rooms without one as plain.
    pub fn ensure_room_kinds(&mut self)
        requires
            old(self).wf(),
        ensures
            final(self).wf(),
            final(self).room_kinds@.len() >= final(self).rooms@.len(),
            forall|i: int| 0 <= i < old(self).room_kinds@.len() ==> final(self).room_kinds@[i] == old(self).room_kinds@[i],
            forall|i: int| old(self).room_kinds@.len() <= i < final(self).room_kinds@.len() ==> final(self).room_kinds@[i] == TowerRoomKind::Plain,
            final(self).tiles == old(self).tiles,
            final(self).visibility == old(self).visibility,
            final(self).rooms == old(self).rooms,
            final(self).objects == old(self).objects,
            final(self).width == old(self).width,
            final(self).height == old(self).height,
            final(self).floor == old(self).floor,
            final(self).seed == old(self).seed,
            final(self).player_x == old(self).player_x,
            final(self).player_y == old(self).player_y,
            final(self).start_x == old(self).start_x,
            final(self).start_y == old(self).start_y,
    {
        while self.room_kinds.len() < self.rooms.len()
            invariant
                self.wf(),
                forall|i: int| 0 <= i < old(self).room_kinds@.len() ==> self.room_kinds@[i] == old(self).room_kinds@[i],
                forall|i: int| old(self).room_kinds@.len() <= i < self.room_kinds@.len() ==> self.room_kinds@[i] == TowerRoomKind::Plain,
                self.room_kinds@.len() >= old(self).room_kinds@.len(),
                self.tiles == old(self).tiles,
                self.visibility == old(self).visibility,
                self.rooms == old(self).rooms,
                self.objects == old(self).objects,
                self.width == old(self).width,
                self.height == old(self).height,
                self.floor == old(self).floor,
                self.seed == old(self).seed,
                self.player_x == old(self).player_x,
                self.player_y == old(self).player_y,
                self.start_x == old(self).start_x,
                self.start_y == old(self).start_y,
            decreases self.rooms@.len() - self.room_kinds@.len(),
        {
            self.room_kinds.push(TowerRoomKind::Plain);
        }
    }

    /// Marks room `index` with `kind`; rooms without a kind slot are ignored.
    pub fn set_room_kind(&mut self, index: usize, kind: TowerRoomKind)
        ensures
            final(self).room_kinds@ == if index < old(self).room_kinds@.len() {
                old(self).room_kinds@.update(index as int, kind)
            } else {
                old(self).room_kinds@
            },
            final(self).tiles == old(self).tiles,
            final(self).visibility == old(self).visibility,
            final(self).rooms == old(self).rooms,
            final(self).objects == old(self).objects,
            final(self).width == old(self).width,
            final(self).height == old(self).height,
            final(self).floor == old(self).floor,
            final(self).seed == old(self).seed,
            final(self).player_x == old(self).player_x,
            final(self).player_y == old(self).player_y,
            final(self).start_x == old(self).start_x,
            final(self).start_y == old(self).start_y,
    {
        if index < self.room_kinds.len() {
            self.room_kinds.set(index, kind);
        }
    }
}

} // verus!
