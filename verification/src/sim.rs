//! The world: its grid, its pools, and the questions that the rules ask of them.

use std::collections::VecDeque;
use vstd::prelude::*;
use crate::map::MapDef;
use crate::pools::{GroundPool, MobPool, PlayerPool};
use crate::pools::{lemma_live_below, GroundV, GroundsV, MobV, MobsV, PlayerV, PlayersV};
use crate::search::{first_at, lemma_first_is};
use crate::levels::level_of;
use crate::text::same_text;
use crate::types::{chat_of, texts_of, ChatV};
use crate::types::{ChatMsg, Intent, Obj, Skills, Tile, INV_SIZE, TPS};

verus! {

/// Something that happened in a tick and that clients may show.
#[derive(Clone, Copy, PartialEq, Eq, Structural, Debug)]
pub enum EventRec {
    Chop { x: i16, y: i16 },
    Mine { x: i16, y: i16 },
    Pick { x: i16, y: i16 },
    Fish { x: i16, y: i16 },
    HitMob { x: i16, y: i16, dmg: i16 },
    MissMob { x: i16, y: i16 },
    HitPlayer { x: i16, y: i16, dmg: i16 },
    MissPlayer { x: i16, y: i16 },
}

/// The world. `day` numbers the day that `visitors` counts; `rng` is the state
/// of the random numbers.
pub struct Sim {
    pub w: i32,
    pub h: i32,
    pub tiles: Vec<Tile>,
    pub objects: Vec<Obj>,
    pub objects_dirty: Vec<u32>,
    pub player_spawn: (i32, i32),
    pub players: PlayerPool,
    pub mobs: MobPool,
    pub ground: GroundPool,
    pub tick: u64,
    pub chat_seq: u64,
    pub chat: VecDeque<ChatMsg>,
    pub events: Vec<EventRec>,
    pub daily_visitors_day: i32,
    pub daily_visitors: Vec<String>,
    pub rng: u64,
}

/// The state of the world.
#[verifier::ext_equal]
pub struct SimV {
    pub w: i32,
    pub h: i32,
    pub tiles: Seq<Tile>,
    pub objects: Seq<Obj>,
    pub objects_dirty: Seq<u32>,
    pub player_spawn: (i32, i32),
    pub players: PlayersV,
    pub mobs: MobsV,
    pub ground: GroundsV,
    pub tick: u64,
    pub chat_seq: u64,
    pub chat: Seq<ChatV>,
    pub events: Seq<EventRec>,
    pub day: i32,
    pub visitors: Seq<Seq<char>>,
    pub rng: u64,
}

impl View for Sim {
    type V = SimV;

    open spec fn view(&self) -> SimV {
        SimV {
            w: self.w,
            h: self.h,
            tiles: self.tiles@,
            objects: self.objects@,
            objects_dirty: self.objects_dirty@,
            player_spawn: self.player_spawn,
            players: self.players@,
            mobs: self.mobs@,
            ground: self.ground@,
            tick: self.tick,
            chat_seq: self.chat_seq,
            chat: chat_of(self.chat@),
            events: self.events@,
            day: self.daily_visitors_day,
            visitors: texts_of(self.daily_visitors@),
            rng: self.rng,
        }
    }
}

/// The state from which the random numbers start.
pub const RNG_START: u64 = 0xdead_beef_cafe_babe;

/// How many chat lines are kept.
pub const CHAT_KEPT: usize = 50;

impl PlayerV {
    /// A player is in order in a world of the given size with `n` players: 28
    /// inventory slots, levels that follow from the experience, hit points in their
    /// range, a trade partner
    /// that exists, and a target on the map unless it follows someone.
    pub open spec fn ok(self, w: i32, h: i32, n: nat) -> bool {
        &&& self.inv.len() == INV_SIZE
        &&& self.skills.wf()
        &&& levels_right(self.skills)
        &&& 0 <= self.hp_cur <= 108
        &&& self.regen_ctr < 6 * TPS
        &&& self.trade.partner matches Some(p) ==> p < n && p < 0x1_0000
        &&& self.intent is Attack || self.intent is Trade || match self.target {
            Some(t) => inside(w, h, t.0, t.1),
            None => true,
        }
    }

    /// The player with another line in its log.
    pub open spec fn said(self, line: Seq<char>) -> PlayerV {
        PlayerV { log: self.log.push(line), ..self }
    }

    /// The player with nothing to do.
    pub open spec fn idle(self) -> PlayerV {
        PlayerV { intent: Intent::Idle, target: None, ..self }
    }
}

impl MobV {
    /// A creature is in order: its kind is known and its numbers lie in the
    /// ranges of the table.
    pub open spec fn ok(self) -> bool {
        &&& self.kind_id < 4
        &&& 0 <= self.hp_cur <= 350
        &&& 0 <= self.hp_max <= 350
        &&& 0 <= self.attack <= 90
        &&& 0 <= self.strength <= 100
        &&& 0 <= self.defence <= 80
    }
}

/// The levels are those that follow from the experience; hit points start at 10.
pub open spec fn levels_right(s: Skills) -> bool {
    &&& s.woodcutting == level_of(s.woodcutting_xp)
    &&& s.mining == level_of(s.mining_xp)
    &&& s.fishing == level_of(s.fishing_xp)
    &&& s.attack == level_of(s.attack_xp)
    &&& s.strength == level_of(s.strength_xp)
    &&& s.defence == level_of(s.defence_xp)
    &&& s.hp == level_of(s.hp_xp) + 9
}

/// Whether a cell lies on a map of the given size.
pub open spec fn inside(w: i32, h: i32, x: i32, y: i32) -> bool {
    0 <= x < w && 0 <= y < h
}

/// Every listed cell lies below the count.
pub open spec fn cells_ok(cells: Seq<u32>, n: nat) -> bool {
    forall|k: int| 0 <= k < cells.len() ==> (#[trigger] cells[k]) < n
}

/// Every player is in order.
pub open spec fn players_ok(slots: Seq<PlayerV>, w: i32, h: i32) -> bool {
    forall|i: int| 0 <= i < slots.len() ==> (#[trigger] slots[i]).ok(w, h, slots.len())
}

/// Every creature is in order.
pub open spec fn mobs_ok(slots: Seq<MobV>) -> bool {
    forall|i: int| 0 <= i < slots.len() ==> (#[trigger] slots[i]).ok()
}

/// Each text stands once in the list.
pub open spec fn no_repeats(v: Seq<Seq<char>>) -> bool {
    forall|j: int, k: int| 0 <= j < k < v.len() ==> v[j] != v[k]
}

impl SimV {
    /// The map has one tile and one object per cell.
    pub open spec fn grid_ok(self) -> bool {
        &&& 0 <= self.w
        &&& 0 <= self.h
        &&& self.w * self.h <= i32::MAX
        &&& self.tiles.len() == self.w * self.h
        &&& self.objects.len() == self.w * self.h
    }

    /// What holds of the world at all times.
    pub open spec fn wf(self) -> bool {
        &&& self.grid_ok()
        &&& cells_ok(self.objects_dirty, self.objects.len())
        &&& players_ok(self.players.slots, self.w, self.h)
        &&& mobs_ok(self.mobs.slots)
        &&& self.chat.len() <= CHAT_KEPT
        &&& no_repeats(self.visitors)
    }

    /// The player with a number.
    pub open spec fn p(self, pid: u16) -> PlayerV {
        self.players.slots[pid as int]
    }

    /// The creature with a number.
    pub open spec fn m(self, mid: u16) -> MobV {
        self.mobs.slots[mid as int]
    }

    /// Whether there is a player, live or not, with the number.
    pub open spec fn has(self, pid: u16) -> bool {
        pid < self.players.slots.len()
    }

    /// Whether two worlds have room for as many players, dead ones included.
    pub open spec fn as_many_players(self, s: SimV) -> bool {
        self.players.slots.len() == s.players.slots.len()
    }

    /// The world with one player replaced.
    pub open spec fn put(self, pid: u16, p: PlayerV) -> SimV {
        SimV { players: self.players.put(pid as int, p), ..self }
    }

    /// The world with one creature replaced.
    pub open spec fn put_mob(self, mid: u16, m: MobV) -> SimV {
        SimV { mobs: self.mobs.put(mid as int, m), ..self }
    }

    /// The world with another event.
    pub open spec fn event(self, e: EventRec) -> SimV {
        SimV { events: self.events.push(e), ..self }
    }

    /// The world with a line in one player's log.
    pub open spec fn tell(self, pid: u16, line: Seq<char>) -> SimV {
        self.put(pid, self.p(pid).said(line))
    }

    /// The world with one player idle.
    pub open spec fn rest(self, pid: u16) -> SimV {
        self.put(pid, self.p(pid).idle())
    }

    /// Whether a cell lies on the map.
    pub open spec fn in_b(self, x: i32, y: i32) -> bool {
        inside(self.w, self.h, x, y)
    }

    /// The number of a cell: rows first, in 32 bits, wrapping around.
    pub open spec fn cell(self, x: i32, y: i32) -> int {
        (y.wrapping_mul(self.w).wrapping_add(x)) as usize as int
    }

    /// Whether a place can be read and changed: the cells of the map, and those places whose
    /// number is that of a cell.
    pub open spec fn has_cell(self, x: i32, y: i32) -> bool {
        self.in_b(x, y) || self.cell(x, y) < self.objects.len()
    }

    /// The tile of a cell.
    pub open spec fn tile_at(self, x: i32, y: i32) -> Tile {
        self.tiles[self.cell(x, y)]
    }

    /// The object on a cell.
    pub open spec fn obj_at(self, x: i32, y: i32) -> Obj {
        self.objects[self.cell(x, y)]
    }

    /// The world with another object on a cell.
    pub open spec fn with_obj(self, x: i32, y: i32, o: Obj) -> SimV {
        SimV {
            objects: self.objects.update(self.cell(x, y), o),
            objects_dirty: self.objects_dirty.push(self.cell(x, y) as u32),
            ..self
        }
    }

    /// The live player on a cell, the first where there are several.
    pub open spec fn player_on(self, x: i32, y: i32) -> Option<u16> {
        let k = first_at(self.players.slots, player_at(x, y), 0);
        if k < self.players.slots.len() {
            Some(k as u16)
        } else {
            None
        }
    }

    /// The creature that is up on a cell, the first where there are several.
    pub open spec fn mob_on(self, x: i32, y: i32) -> Option<u16> {
        let k = first_at(self.mobs.slots, mob_at(x, y), 0);
        if k < self.mobs.slots.len() {
            Some(k as u16)
        } else {
            None
        }
    }

    /// Whether a cell can be walked on: on the map, no water, no object, no
    /// creature, and no player but possibly the one to ignore.
    pub open spec fn open_to(self, x: i32, y: i32, ignore_pid: i32) -> bool {
        &&& self.in_b(x, y)
        &&& self.tile_at(x, y) !is Water
        &&& self.obj_at(x, y) is Empty
        &&& self.player_on(x, y) matches Some(pid) ==> pid == ignore_pid
        &&& self.mob_on(x, y) is None
    }

    /// Whether a player stands on or next to an object that satisfies `f`.
    pub open spec fn near(self, pid: u16, f: spec_fn(Obj) -> bool) -> bool {
        exists|dx: int, dy: int| #[trigger] self.near_at(pid, f, dx, dy)
    }

    /// Whether the object at an offset of at most one from a player satisfies `f`.
    pub open spec fn near_at(self, pid: u16, f: spec_fn(Obj) -> bool, dx: int, dy: int) -> bool {
        self.beside(pid, dx, dy) && f(self.obj_beside(pid, dx, dy))
    }

    /// Whether an offset of at most one from a player leads to a cell of the map.
    pub open spec fn beside(self, pid: u16, dx: int, dy: int) -> bool {
        -1 <= dx <= 1 && -1 <= dy <= 1 && self.in_b(
            (self.p(pid).x + dx) as i32,
            (self.p(pid).y + dy) as i32,
        )
    }

    /// The object at an offset from a player.
    pub open spec fn obj_beside(self, pid: u16, dx: int, dy: int) -> Obj {
        self.obj_at((self.p(pid).x + dx) as i32, (self.p(pid).y + dy) as i32)
    }

    /// The stacks on a cell, in order.
    pub open spec fn stacks_on(self, x: i32, y: i32) -> Seq<u16> {
        lying_at(self.ground.slots, self.ground.live(), x, y)
    }

    /// The world after items fell on a cell: onto a stack of the same item that
    /// lies there, else as a new stack.
    pub open spec fn dropped(self, x: i32, y: i32, item: Seq<char>, qty: i32) -> SimV {
        let k = first_at(self.ground.slots, stack_at(x, y, item), 0);
        if qty <= 0 || item.len() == 0 {
            self
        } else if k < self.ground.slots.len() {
            let g = self.ground.slots[k];
            SimV {
                ground: self.ground.put(k, GroundV { qty: g.qty.wrapping_add(qty), ..g }),
                ..self
            }
        } else {
            SimV { ground: self.ground.spawn_stack(x, y, item, qty), ..self }
        }
    }
}

/// Picks a live player on a cell.
pub open spec fn player_at(x: i32, y: i32) -> spec_fn(PlayerV) -> bool {
    |p: PlayerV| p.alive && p.x == x as i16 && p.y == y as i16
}

/// Picks a creature that is up on a cell.
pub open spec fn mob_at(x: i32, y: i32) -> spec_fn(MobV) -> bool {
    |m: MobV| m.alive && m.respawn_at == 0 && m.x == x as i16 && m.y == y as i16
}

/// Picks a stack of an item on a cell.
pub open spec fn stack_at(x: i32, y: i32, item: Seq<char>) -> spec_fn(GroundV) -> bool {
    |g: GroundV| g.alive && g.x == x as i16 && g.y == y as i16 && g.item == item
}

/// Those of the listed stacks that lie on a cell.
pub open spec fn lying_at(slots: Seq<GroundV>, ids: Seq<u16>, x: i32, y: i32) -> Seq<u16>
    decreases ids.len(),
{
    if ids.len() == 0 {
        ids
    } else {
        let g = slots[ids.last() as int];
        let rest = lying_at(slots, ids.drop_last(), x, y);
        if g.x == x as i16 && g.y == y as i16 {
            rest.push(ids.last())
        } else {
            rest
        }
    }
}

/// Picks the trader.
pub open spec fn is_trader() -> spec_fn(Obj) -> bool {
    |o: Obj| o is Trader
}

/// Picks the blacksmith.
pub open spec fn is_blacksmith() -> spec_fn(Obj) -> bool {
    |o: Obj| o is Blacksmith
}

/// Picks the angler.
pub open spec fn is_angler() -> spec_fn(Obj) -> bool {
    |o: Obj| o is Angler
}

/// Picks the angel.
pub open spec fn is_angel() -> spec_fn(Obj) -> bool {
    |o: Obj| o is Angel
}

/// Of two updates of one position the later counts.
pub broadcast proof fn lemma_update_twice<T>(s: Seq<T>, i: int, a: T, b: T)
    requires
        0 <= i < s.len(),
    ensures
        #[trigger] s.update(i, a).update(i, b) == s.update(i, b),
{
    assert(s.update(i, a).update(i, b) =~= s.update(i, b));
}

/// A cell of the map has the number of its row times the width plus its column.
pub proof fn lemma_cell(s: SimV, x: i32, y: i32)
    requires
        s.grid_ok(),
        s.in_b(x, y),
    ensures
        s.cell(x, y) == y * s.w + x,
        0 <= s.cell(x, y) < s.w * s.h,
{
    assert(0 <= y * s.w && y * s.w + x < s.w * s.h && y * s.w <= s.w * s.h) by (nonlinear_arith)
        requires
            0 <= x < s.w,
            0 <= y < s.h,
    ;
}

/// A place that has a cell has its number within the grid.
pub proof fn lemma_has_cell(s: SimV, x: i32, y: i32)
    requires
        s.grid_ok(),
        s.has_cell(x, y),
    ensures
        0 <= s.cell(x, y) < s.objects.len(),
        s.objects.len() == s.tiles.len(),
        s.objects.len() <= i32::MAX,
{
    if s.in_b(x, y) {
        lemma_cell(s, x, y);
    }
}

/// The distance between two numbers, in 32 bits, wrapping around.
pub open spec fn gap(a: i32, b: i32) -> i32 {
    let d = a.wrapping_sub(b);
    if d < 0 {
        0i32.wrapping_sub(d)
    } else {
        d
    }
}

fn gap_of(a: i32, b: i32) -> (r: i32)
    ensures
        r == gap(a, b),
{
    let d: i32 = a.wrapping_sub(b);
    if d < 0 {
        0i32.wrapping_sub(d)
    } else {
        d
    }
}

/// The distance in steps along the axes.
pub open spec fn manhattan_of(a: (i32, i32), b: (i32, i32)) -> i32 {
    gap(a.0, b.0).wrapping_add(gap(a.1, b.1))
}

/// The distance in steps, diagonal ones allowed.
pub open spec fn chebyshev_of(a: (i32, i32), b: (i32, i32)) -> i32 {
    if gap(a.0, b.0) >= gap(a.1, b.1) {
        gap(a.0, b.0)
    } else {
        gap(a.1, b.1)
    }
}

/// The distance in steps along the axes.
pub fn manhattan(a: (i32, i32), b: (i32, i32)) -> (r: i32)
    ensures
        r == manhattan_of(a, b),
{
    gap_of(a.0, b.0).wrapping_add(gap_of(a.1, b.1))
}

/// The distance in steps, diagonal ones allowed.
pub fn chebyshev(a: (i32, i32), b: (i32, i32)) -> (r: i32)
    ensures
        r == chebyshev_of(a, b),
{
    let x: i32 = gap_of(a.0, b.0);
    let y: i32 = gap_of(a.1, b.1);
    if x >= y {
        x
    } else {
        y
    }
}

/// Cells with coordinates of 16 bits are as far apart as their coordinates say.
pub proof fn law_distances(a: (i32, i32), b: (i32, i32))
    requires
        -0x8000 <= a.0 < 0x8000,
        -0x8000 <= a.1 < 0x8000,
        -0x8000 <= b.0 < 0x8000,
        -0x8000 <= b.1 < 0x8000,
    ensures
        gap(a.0, b.0) == if a.0 >= b.0 { a.0 - b.0 } else { b.0 - a.0 },
        gap(a.1, b.1) == if a.1 >= b.1 { a.1 - b.1 } else { b.1 - a.1 },
        manhattan_of(a, b) == gap(a.0, b.0) + gap(a.1, b.1),
        chebyshev_of(a, b) <= manhattan_of(a, b) <= 2 * chebyshev_of(a, b),
        chebyshev_of(a, b) == chebyshev_of(b, a),
        chebyshev_of(a, b) == 0 <==> a == b,
{
}

/// The creatures of a map, spawned one after the other.
pub open spec fn spawned_mobs(s: MobsV, mobs: Seq<crate::map::MobSpawn>) -> MobsV
    decreases mobs.len(),
{
    if mobs.len() == 0 {
        s
    } else {
        let m = mobs.last();
        spawned_mobs(s, mobs.drop_last()).spawn_mob(m.kind@, m.x, m.y)
    }
}

/// No entity at all.
pub open spec fn no_players() -> PlayersV {
    PlayersV {
        slots: Seq::empty(),
        free: Seq::empty(),
        spawned: Seq::empty(),
        despawned: Seq::empty(),
    }
}

/// No entity at all.
pub open spec fn no_mobs() -> MobsV {
    MobsV {
        slots: Seq::empty(),
        free: Seq::empty(),
        spawned: Seq::empty(),
        despawned: Seq::empty(),
    }
}

/// No entity at all.
pub open spec fn no_ground() -> GroundsV {
    GroundsV {
        slots: Seq::empty(),
        free: Seq::empty(),
        spawned: Seq::empty(),
        despawned: Seq::empty(),
    }
}

/// The world on a map before the first tick.
pub open spec fn new_world(map: MapDef, today: i32) -> SimV {
    SimV {
        w: map.w,
        h: map.h,
        tiles: map.tiles@,
        objects: map.objects@,
        objects_dirty: Seq::empty(),
        player_spawn: map.player_spawn,
        players: no_players(),
        mobs: spawned_mobs(no_mobs(), map.mobs@),
        ground: no_ground(),
        tick: 0,
        chat_seq: 0,
        chat: Seq::empty(),
        events: Seq::empty(),
        day: today,
        visitors: Seq::empty(),
        rng: RNG_START,
    }
}

impl Sim {
    /// The arrays of the pools fit together and the world is in order.
    pub open spec fn wf(&self) -> bool {
        &&& self.players.wf()
        &&& self.mobs.wf()
        &&& self.ground.wf()
        &&& self@.wf()
    }

    /// A world on a map: its creatures in place, nobody there yet.
    pub fn new(map: MapDef, today: i32) -> (r: Self)
        requires
            map.wf(),
        ensures
            r.wf(),
            r@ == new_world(map, today),
    {
        let mut mobs: MobPool = MobPool::default();
        let mut i: usize = 0;
        while i < map.mobs.len()
            invariant
                i <= map.mobs.len(),
                mobs.wf(),
                mobs@ == spawned_mobs(no_mobs(), map.mobs@.take(i as int)),
                forall|k: int| 0 <= k < mobs@.slots.len() ==> (#[trigger] mobs@.slots[k]).ok(),
            decreases map.mobs.len() - i,
        {
            assert(map.mobs@.take(i + 1).drop_last() =~= map.mobs@.take(i as int));
            mobs.spawn(map.mobs[i].kind, map.mobs[i].x, map.mobs[i].y);
            proof {
                crate::defs::lemma_mob_bounds(map.mobs@[i as int].kind@);
            }
            i = i + 1;
        }
        assert(map.mobs@.take(i as int) =~= map.mobs@);
        let s = Sim {
            w: map.w,
            h: map.h,
            tiles: map.tiles,
            objects: map.objects,
            objects_dirty: Vec::new(),
            player_spawn: map.player_spawn,
            players: PlayerPool::default(),
            mobs,
            ground: GroundPool::default(),
            tick: 0,
            chat_seq: 0,
            chat: VecDeque::new(),
            events: Vec::new(),
            daily_visitors_day: today,
            daily_visitors: Vec::new(),
            rng: RNG_START,
        };
        assert(chat_of(Seq::<ChatMsg>::empty()) =~= Seq::<ChatV>::empty());
        assert(texts_of(Seq::<String>::empty()) =~= Seq::<Seq<char>>::empty());
        s
    }

    /// The number of a cell: rows first, in 32 bits, wrapping around.
    pub fn idx(&self, x: i32, y: i32) -> (r: usize)
        ensures
            r == self@.cell(x, y),
            self@.grid_ok() && self@.in_b(x, y) ==> r == y * self@.w + x && r < self@.tiles.len(),
    {
        proof {
            if self@.grid_ok() && self@.in_b(x, y) {
                lemma_cell(self@, x, y);
            }
        }
        (y.wrapping_mul(self.w).wrapping_add(x)) as usize
    }

    /// Whether a cell lies on the map.
    pub fn in_b(&self, x: i32, y: i32) -> (r: bool)
        ensures
            r == self@.in_b(x, y),
    {
        x >= 0 && y >= 0 && x < self.w && y < self.h
    }

    /// The tile of a cell.
    pub fn tile(&self, x: i32, y: i32) -> (r: Tile)
        requires
            self@.cell(x, y) < self@.tiles.len(),
        ensures
            r == self@.tile_at(x, y),
    {
        self.tiles[self.idx(x, y)]
    }

    /// The object on a cell.
    pub fn obj(&self, x: i32, y: i32) -> (r: &Obj)
        requires
            self@.cell(x, y) < self@.objects.len(),
        ensures
            *r == self@.obj_at(x, y),
    {
        &self.objects[self.idx(x, y)]
    }

    /// Puts another object on a cell.
    pub fn set_obj(&mut self, x: i32, y: i32, o: Obj)
        requires
            old(self).wf(),
            old(self)@.has_cell(x, y),
        ensures
            final(self).wf(),
            final(self)@ == old(self)@.with_obj(x, y, o),
            final(self)@.as_many_players(old(self)@),
    {
        proof {
            lemma_has_cell(self@, x, y);
        }
        let i: usize = self.idx(x, y);
        self.objects[i] = o;
        self.objects_dirty.push(i as u32);
        assert(self@ =~= old(self)@.with_obj(x, y, o));
    }

    /// The live player on a cell, the first where there are several.
    pub fn occupant_pid(&self, x: i32, y: i32) -> (r: Option<u16>)
        requires
            self.players.wf(),
        ensures
            r == self@.player_on(x, y),
            r matches Some(pid) ==> pid < self@.players.slots.len(),
    {
        let ghost v = self@.players.slots;
        let mut i: usize = 0;
        while i < self.players.alive.len()
            invariant
                i <= self.players.alive.len(),
                self.players.wf(),
                v == self@.players.slots,
                forall|j: int| 0 <= j < i ==> !player_at(x, y)(#[trigger] v[j]),
            decreases self.players.alive.len() - i,
        {
            if self.players.alive[i] && self.players.xs[i] == x as i16 && self.players.ys[i] == y as i16 {
                assert(player_at(x, y)(v[i as int]));
                proof {
                    lemma_first_is(v, player_at(x, y), 0, i as int);
                }
                return Some(i as u16);
            }
            assert(!player_at(x, y)(v[i as int]));
            i = i + 1;
        }
        proof {
            lemma_first_is(v, player_at(x, y), 0, v.len() as int);
        }
        None
    }

    /// The creature that is up on a cell, the first where there are several.
    pub fn occupant_mid(&self, x: i32, y: i32) -> (r: Option<u16>)
        requires
            self.mobs.wf(),
        ensures
            r == self@.mob_on(x, y),
            r matches Some(mid) ==> mid < self@.mobs.slots.len(),
    {
        let ghost v = self@.mobs.slots;
        let mut i: usize = 0;
        while i < self.mobs.alive.len()
            invariant
                i <= self.mobs.alive.len(),
                self.mobs.wf(),
                v == self@.mobs.slots,
                forall|j: int| 0 <= j < i ==> !mob_at(x, y)(#[trigger] v[j]),
            decreases self.mobs.alive.len() - i,
        {
            if self.mobs.alive[i] && self.mobs.respawn_at[i] == 0 && self.mobs.xs[i] == x as i16
                && self.mobs.ys[i] == y as i16 {
                assert(mob_at(x, y)(v[i as int]));
                proof {
                    lemma_first_is(v, mob_at(x, y), 0, i as int);
                }
                return Some(i as u16);
            }
            assert(!mob_at(x, y)(v[i as int]));
            i = i + 1;
        }
        proof {
            lemma_first_is(v, mob_at(x, y), 0, v.len() as int);
        }
        None
    }

    /// The stacks on a cell, in order.
    pub fn stacks_on(&self, x: i32, y: i32) -> (r: Vec<u16>)
        requires
            self.ground.wf(),
        ensures
            r@ == self@.stacks_on(x, y),
            forall|k: int| 0 <= k < r@.len() ==> (#[trigger] r@[k]) < self@.ground.slots.len(),
    {
        let ids: Vec<u16> = self.ground.iter_live();
        proof {
            lemma_live_below(self@.ground.alive(), self@.ground.slots.len() as int);
        }
        let mut out: Vec<u16> = Vec::new();
        let mut i: usize = 0;
        assert(ids@.take(0) =~= Seq::<u16>::empty());
        while i < ids.len()
            invariant
                i <= ids.len(),
                self.ground.wf(),
                ids@ == self@.ground.live(),
                forall|k: int| 0 <= k < ids@.len() ==> (#[trigger] ids@[k]) < self@.ground.slots.len(),
                out@ == lying_at(self@.ground.slots, ids@.take(i as int), x, y),
                forall|k: int| 0 <= k < out@.len() ==> (#[trigger] out@[k]) < self@.ground.slots.len(),
            decreases ids.len() - i,
        {
            assert(ids@.take(i + 1).drop_last() =~= ids@.take(i as int));
            let u: usize = ids[i] as usize;
            if self.ground.xs[u] == x as i16 && self.ground.ys[u] == y as i16 {
                out.push(ids[i]);
            }
            i = i + 1;
        }
        assert(ids@.take(i as int) =~= ids@);
        out
    }

    /// Whether a cell can be walked on by the player to ignore.
    pub fn walkable(&self, x: i32, y: i32, ignore_pid: i32) -> (r: bool)
        requires
            self.wf(),
        ensures
            r == self@.open_to(x, y, ignore_pid),
    {
        if !self.in_b(x, y) {
            return false;
        }
        proof {
            lemma_cell(self@, x, y);
        }
        if matches!(self.tile(x, y), Tile::Water) {
            return false;
        }
        if !matches!(*self.obj(x, y), Obj::Empty) {
            return false;
        }
        if let Some(pid) = self.occupant_pid(x, y) {
            if pid as i32 != ignore_pid {
                return false;
            }
        }
        if self.occupant_mid(x, y).is_some() {
            return false;
        }
        true
    }

    /// Drops items on a cell: onto a stack of the same item that lies there, else
    /// as a new stack. Nothing happens without an item or a quantity.
    pub fn drop_ground(&mut self, x: i32, y: i32, item: &str, qty: i32)
        requires
            old(self).wf(),
        ensures
            final(self).wf(),
            final(self)@ == old(self)@.dropped(x, y, item@, qty),
            final(self)@.as_many_players(old(self)@),
            final(self)@.ground.slots.len() >= old(self)@.ground.slots.len(),
    {
        if qty <= 0 || item.is_empty() {
            return;
        }
        let ghost v = self@.ground.slots;
        let mut i: usize = 0;
        while i < self.ground.alive.len()
            invariant
                i <= self.ground.alive.len(),
                *self == *old(self),
                self.wf(),
                v == self@.ground.slots,
                qty > 0,
                item@.len() > 0,
                forall|j: int| 0 <= j < i ==> !stack_at(x, y, item@)(#[trigger] v[j]),
            decreases self.ground.alive.len() - i,
        {
            if self.ground.alive[i] && self.ground.xs[i] == x as i16 && self.ground.ys[i] == y as i16
                && same_text(self.ground.item[i].as_str(), item) {
                assert(stack_at(x, y, item@)(v[i as int]));
                proof {
                    lemma_first_is(v, stack_at(x, y, item@), 0, i as int);
                }
                let q: i32 = self.ground.qty[i];
                self.ground.set_qty(i, q.wrapping_add(qty));
                return;
            }
            assert(!stack_at(x, y, item@)(v[i as int]));
            i = i + 1;
        }
        proof {
            lemma_first_is(v, stack_at(x, y, item@), 0, v.len() as int);
        }
        self.ground.spawn(x, y, item, qty);
    }

    /// Whether an object that satisfies the condition stands where the player is
    /// or next to it.
    pub fn near_obj_matching(&self, pid: u16, pred: impl Fn(&Obj) -> bool) -> (r: bool)
        requires
            self.wf(),
            self@.has(pid),
            forall|o: &Obj| #[trigger] call_requires(pred, (o,)),
        ensures
            r ==> exists|dx: int, dy: int| #[trigger]
                self@.beside(pid, dx, dy) && call_ensures(
                    pred,
                    (&self@.obj_beside(pid, dx, dy),),
                    true,
                ),
            !r ==> forall|dx: int, dy: int| #[trigger]
                self@.beside(pid, dx, dy) ==> call_ensures(
                    pred,
                    (&self@.obj_beside(pid, dx, dy),),
                    false,
                ),
    {
        let px: i32 = self.players.xs[pid as usize] as i32;
        let py: i32 = self.players.ys[pid as usize] as i32;
        let mut dy: i32 = -1;
        while dy <= 1
            invariant
                -1 <= dy <= 2,
                self.wf(),
                self@.has(pid),
                px == self@.p(pid).x,
                py == self@.p(pid).y,
                forall|o: &Obj| #[trigger] call_requires(pred, (o,)),
                forall|a: int, b: int| #[trigger]
                    self@.beside(pid, a, b) && b < dy ==> call_ensures(
                        pred,
                        (&self@.obj_beside(pid, a, b),),
                        false,
                    ),
            decreases 2 - dy,
        {
            let mut dx: i32 = -1;
            while dx <= 1
                invariant
                    -1 <= dx <= 2,
                    -1 <= dy <= 1,
                    self.wf(),
                    self@.has(pid),
                    px == self@.p(pid).x,
                    py == self@.p(pid).y,
                    forall|o: &Obj| #[trigger] call_requires(pred, (o,)),
                    forall|a: int, b: int| #[trigger]
                        self@.beside(pid, a, b) && (b < dy || (b == dy && a < dx)) ==> call_ensures(
                            pred,
                            (&self@.obj_beside(pid, a, b),),
                            false,
                        ),
                decreases 2 - dx,
            {
                let nx: i32 = px + dx;
                let ny: i32 = py + dy;
                if self.in_b(nx, ny) {
                    proof {
                        lemma_cell(self@, nx, ny);
                    }
                    if pred(self.obj(nx, ny)) {
                        assert(self@.beside(pid, dx as int, dy as int));
                        return true;
                    }
                }
                dx = dx + 1;
            }
            dy = dy + 1;
        }
        false
    }

    /// Whether the player stands next to the trader.
    pub fn near_trader(&self, pid: u16) -> (r: bool)
        requires
            self.wf(),
            self@.has(pid),
        ensures
            r == self@.near(pid, is_trader()),
    {
        let pred = |o: &Obj| -> (b: bool)
            ensures
                b == (*o is Trader),
            { matches!(*o, Obj::Trader) };
        let r: bool = self.near_obj_matching(pid, pred);
        proof {
            let f = is_trader();
            if r {
                let (dx, dy) = choose|dx: int, dy: int| #[trigger]
                    self@.beside(pid, dx, dy) && call_ensures(
                        pred,
                        (&self@.obj_beside(pid, dx, dy),),
                        true,
                    );
                assert(self@.near_at(pid, f, dx, dy));
            } else {
                assert forall|dx: int, dy: int| !#[trigger] self@.near_at(pid, f, dx, dy) by {
                    if self@.near_at(pid, f, dx, dy) {
                        assert(self@.beside(pid, dx, dy));
                    }
                }
            }
        }
        r
    }

    /// Whether the player stands next to the blacksmith.
    pub fn near_blacksmith(&self, pid: u16) -> (r: bool)
        requires
            self.wf(),
            self@.has(pid),
        ensures
            r == self@.near(pid, is_blacksmith()),
    {
        let pred = |o: &Obj| -> (b: bool)
            ensures
                b == (*o is Blacksmith),
            { matches!(*o, Obj::Blacksmith) };
        let r: bool = self.near_obj_matching(pid, pred);
        proof {
            let f = is_blacksmith();
            if r {
                let (dx, dy) = choose|dx: int, dy: int| #[trigger]
                    self@.beside(pid, dx, dy) && call_ensures(
                        pred,
                        (&self@.obj_beside(pid, dx, dy),),
                        true,
                    );
                assert(self@.near_at(pid, f, dx, dy));
            } else {
                assert forall|dx: int, dy: int| !#[trigger] self@.near_at(pid, f, dx, dy) by {
                    if self@.near_at(pid, f, dx, dy) {
                        assert(self@.beside(pid, dx, dy));
                    }
                }
            }
        }
        r
    }

    /// Whether the player stands next to the angler.
    pub fn near_angler(&self, pid: u16) -> (r: bool)
        requires
            self.wf(),
            self@.has(pid),
        ensures
            r == self@.near(pid, is_angler()),
    {
        let pred = |o: &Obj| -> (b: bool)
            ensures
                b == (*o is Angler),
            { matches!(*o, Obj::Angler) };
        let r: bool = self.near_obj_matching(pid, pred);
        proof {
            let f = is_angler();
            if r {
                let (dx, dy) = choose|dx: int, dy: int| #[trigger]
                    self@.beside(pid, dx, dy) && call_ensures(
                        pred,
                        (&self@.obj_beside(pid, dx, dy),),
                        true,
                    );
                assert(self@.near_at(pid, f, dx, dy));
            } else {
                assert forall|dx: int, dy: int| !#[trigger] self@.near_at(pid, f, dx, dy) by {
                    if self@.near_at(pid, f, dx, dy) {
                        assert(self@.beside(pid, dx, dy));
                    }
                }
            }
        }
        r
    }

    /// Whether the player stands next to the angel.
    pub fn near_angel(&self, pid: u16) -> (r: bool)
        requires
            self.wf(),
            self@.has(pid),
        ensures
            r == self@.near(pid, is_angel()),
    {
        let pred = |o: &Obj| -> (b: bool)
            ensures
                b == (*o is Angel),
            { matches!(*o, Obj::Angel) };
        let r: bool = self.near_obj_matching(pid, pred);
        proof {
            let f = is_angel();
            if r {
                let (dx, dy) = choose|dx: int, dy: int| #[trigger]
                    self@.beside(pid, dx, dy) && call_ensures(
                        pred,
                        (&self@.obj_beside(pid, dx, dy),),
                        true,
                    );
                assert(self@.near_at(pid, f, dx, dy));
            } else {
                assert forall|dx: int, dy: int| !#[trigger] self@.near_at(pid, f, dx, dy) by {
                    if self@.near_at(pid, f, dx, dy) {
                        assert(self@.beside(pid, dx, dy));
                    }
                }
            }
        }
        r
    }
}

} // verus!
