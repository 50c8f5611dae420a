//! One tick of the world: things grow again, players act, creatures act, and hit
//! points come back.

use vstd::prelude::*;
use crate::cells::{
    law_creatures_leave_the_map, law_growth_lists_changes, law_turn_lists_changes,
    lemma_lists_changes_on,
};
use crate::defs::{armor_defence_bonus, rock_def, tree_def, weapon_damage_bonus};
use crate::defs::{armor_bonus, rock_of, tree_of, weapon_bonus};
use crate::gather::regrow_at;
use crate::growth::{law_growth_leaves_nothing_due, law_turns_leave_nothing_due, nothing_overdue};
use crate::inventory::{best_tool, best_tool_of, highest_owned_rod, owned_rod};
use crate::path::{law_route_is_walkable, GoalKind, Trip};
use crate::pools::{lemma_live_below, PlayerV, PlayersV};
use crate::sim::{chebyshev, lemma_cell, lemma_update_twice, Sim, SimV};
use crate::types::{talk_ui, ui_for, Intent, Obj, TPS};

verus! {

broadcast use lemma_update_twice;

/// Whether what a player is about to do is done from the next cell.
pub open spec fn from_beside(intent: Intent) -> bool {
    !(intent is Idle || intent is Pickup)
}

impl SimV {
    /// Where a player is bound for: a followed creature or player wherever it is
    /// now; nothing where there is nobody to follow.
    pub open spec fn bound_for(self, pid: u16) -> Option<(i32, i32)> {
        match self.p(pid).intent {
            Intent::Attack { mid } => if self.mobs.is_up(mid as int) {
                let m = self.mobs.slots[mid as int];
                Some((m.x as i32, m.y as i32))
            } else {
                None
            },
            Intent::Trade { pid: other } => if self.players.is_live(other as int) {
                let o = self.players.slots[other as int];
                Some((o.x as i32, o.y as i32))
            } else {
                None
            },
            _ => self.p(pid).target,
        }
    }

    /// The world after a player did what it came for.
    pub open spec fn acted(self, pid: u16, t: (i32, i32)) -> SimV {
        match self.p(pid).intent {
            Intent::Idle => self,
            Intent::Chop => self.chop(pid, t),
            Intent::Mine => self.mine(pid, t),
            Intent::Pick => self.pick(pid, t),
            Intent::Fish => self.fish(pid, t),
            Intent::Pickup => self.pickup(pid, t),
            Intent::Attack { mid } => self.attack(pid, mid as u16),
            Intent::Trade { pid: other } => self.request_trade(pid, other as u16).rest(pid),
            Intent::Talk => self.put(
                pid,
                PlayerV { ui: talk_ui(self.obj_at(t.0, t.1)), ..self.p(pid) }.idle(),
            ),
        }
    }

    /// The way of a player to where it is bound for.
    pub open spec fn way(self, pid: u16, t: (i32, i32)) -> Trip {
        Trip {
            s: self,
            from: (self.p(pid).x as i32, self.p(pid).y as i32),
            goal: if from_beside(self.p(pid).intent) {
                GoalKind::Adjacent(t)
            } else {
                GoalKind::Step(t)
            },
            ignore_pid: pid as i32,
        }
    }

    /// The world after a player took a step on its way; without a way it gives up.
    pub open spec fn walked(self, pid: u16, t: (i32, i32)) -> SimV {
        let p = self.p(pid);
        match self.way(pid, t).route() {
            Some(cells) => if cells.len() > 0 {
                self.put(pid, PlayerV { x: cells[0].0 as i16, y: cells[0].1 as i16, ..p })
            } else {
                self
            },
            None => self.put(pid, p.idle().said("Can't reach there."@)),
        }
    }

    /// The world after a player had its turn.
    pub open spec fn player_turn(self, pid: u16) -> SimV {
        let p = self.p(pid);
        if !p.alive {
            self
        } else {
            match self.bound_for(pid) {
                None => if p.intent is Attack {
                    self.rest(pid)
                } else if p.intent is Trade {
                    self.put(pid, p.idle().said("They are no longer here."@))
                } else {
                    self
                },
                Some(t) => if self.way(pid, t).reached((p.x as i32, p.y as i32)) {
                    self.acted(pid, t)
                } else {
                    self.walked(pid, t)
                },
            }
        }
    }

    /// The world after the first `n` of the listed players had their turns.
    pub open spec fn players_turns(self, ids: Seq<u16>, n: int) -> SimV
        decreases n,
    {
        if n <= 0 {
            self
        } else {
            self.players_turns(ids, n - 1).player_turn(ids[n - 1])
        }
    }

    /// The world after the first `n` of the listed creatures had their turns.
    pub open spec fn mobs_turns(self, ids: Seq<u16>, n: int) -> SimV
        decreases n,
    {
        if n <= 0 {
            self
        } else {
            self.mobs_turns(ids, n - 1).mob_turn(ids[n - 1])
        }
    }

    /// The world at the start of a tick: nothing of the last tick is listed any more.
    pub open spec fn next_tick(self) -> SimV {
        SimV {
            tick: self.tick.wrapping_add(1),
            players: self.players.audit_cleared(),
            mobs: self.mobs.audit_cleared(),
            ground: self.ground.audit_cleared(),
            objects_dirty: Seq::empty(),
            events: Seq::empty(),
            ..self
        }
    }

    /// The world after what was due has grown again.
    pub open spec fn grown(self) -> SimV {
        SimV {
            objects: Seq::new(
                self.objects.len(),
                |i: int|
                    match regrown(self.objects[i], self.tick) {
                        Some(o) => o,
                        None => self.objects[i],
                    },
            ),
            objects_dirty: self.objects_dirty + due_below(
                self.objects,
                self.tick,
                self.objects.len() as int,
            ),
            ..self
        }
    }

    /// The world after every live player recovered for a tick.
    pub open spec fn recovered(self) -> SimV {
        SimV {
            players: PlayersV {
                slots: Seq::new(
                    self.players.slots.len(),
                    |i: int| self.players.slots[i].recovered(),
                ),
                ..self.players
            },
            ..self
        }
    }

    /// The world after a tick.
    pub open spec fn ticked(self) -> SimV {
        let s = self.next_tick().grown();
        let pids = s.players.live();
        let s2 = s.players_turns(pids, pids.len() as int);
        let mids = s2.mobs.live();
        s2.mobs_turns(mids, mids.len() as int).recovered()
    }
}

/// What an object becomes once its time has come: a stump a tree, a depleted rock
/// a rock, a bush one with another berry.
pub open spec fn regrown(o: Obj, now: u64) -> Option<Obj> {
    match o {
        Obj::Stump { tier, regrow } => if regrow <= now {
            Some(Obj::Tree { tier, hp: tree_of(tier).hp })
        } else {
            None
        },
        Obj::DepletedRock { tier, regrow } => if regrow <= now {
            Some(Obj::Rock { tier, hp: rock_of(tier).hp })
        } else {
            None
        },
        Obj::Bush { berries, regrow } => if berries < 3 && regrow <= now {
            Some(Obj::Bush { berries: (berries + 1) as i32, regrow: regrow_at(now, 8) })
        } else {
            None
        },
        _ => None,
    }
}

/// The cells among the first `n` where something is due.
pub open spec fn due_below(objects: Seq<Obj>, now: u64, n: int) -> Seq<u32>
    decreases n,
{
    if n <= 0 {
        Seq::empty()
    } else if regrown(objects[n - 1], now) is Some {
        due_below(objects, now, n - 1).push((n - 1) as u32)
    } else {
        due_below(objects, now, n - 1)
    }
}

impl PlayerV {
    /// The player after it recovered for a tick: every six seconds it gains a hit
    /// point, if it lacks one.
    pub open spec fn recovered(self) -> PlayerV {
        if !self.alive {
            self
        } else if self.regen_ctr + 1 < 6 * TPS {
            PlayerV { regen_ctr: (self.regen_ctr + 1) as u32, ..self }
        } else if self.hp_cur < self.skills.hp {
            PlayerV { regen_ctr: 0, hp_cur: (self.hp_cur + 1) as i16, ..self }
        } else {
            PlayerV { regen_ctr: 0, ..self }
        }
    }
}

/// Recovering never brings hit points above the greatest, and never takes any.
pub proof fn law_recover_bounded(p: PlayerV)
    requires
        p.hp_cur <= p.skills.hp <= 108,
    ensures
        p.hp_cur <= p.recovered().hp_cur <= p.skills.hp,
        p.recovered().skills == p.skills,
{
}

/// What a player's things make of it: the tiers of its tools, its defence and damage.
#[derive(Clone, Copy, PartialEq, Eq, Structural, Debug)]
pub struct PlayerDerived {
    pub axe_tier: i32,
    pub pickaxe_tier: i32,
    pub rod_tier: i32,
    pub armor_defence: i32,
    pub weapon_damage: i32,
}

/// The tier of the best tool of a kind; 0 without one.
pub open spec fn tool_tier(p: PlayerV, kind: Seq<char>) -> i32 {
    match best_tool_of(p.inv, kind) {
        Some(t) => t.tier,
        None => 0,
    }
}

/// What a player's things make of it.
pub open spec fn derived(p: PlayerV) -> PlayerDerived {
    PlayerDerived {
        axe_tier: tool_tier(p, "axe"@),
        pickaxe_tier: tool_tier(p, "pickaxe"@),
        rod_tier: match owned_rod(p.inv, p.equipment) {
            Some(f) => (f.tier + 1) as i32,
            None => 0,
        },
        armor_defence: armor_bonus(p.equipment) as i32,
        weapon_damage: weapon_bonus(p.equipment),
    }
}

fn regrow(o: Obj, now: u64) -> (r: Option<Obj>)
    ensures
        r == regrown(o, now),
{
    match o {
        Obj::Stump { tier, regrow } => if regrow <= now {
            Some(Obj::Tree { tier, hp: tree_def(tier).hp })
        } else {
            None
        },
        Obj::DepletedRock { tier, regrow } => if regrow <= now {
            Some(Obj::Rock { tier, hp: rock_def(tier).hp })
        } else {
            None
        },
        Obj::Bush { berries, regrow } => if berries < 3 && regrow <= now {
            Some(Obj::Bush { berries: berries + 1, regrow: now.wrapping_add(8 * TPS) })
        } else {
            None
        },
        _ => None,
    }
}

impl Sim {
    fn act(&mut self, pid: u16, t: (i32, i32))
        requires
            old(self).wf(),
            old(self)@.has(pid),
            !(old(self)@.p(pid).intent is Attack || old(self)@.p(pid).intent is Trade) ==> old(
                self,
            )@.in_b(t.0, t.1),
        ensures
            final(self).wf(),
            final(self)@.as_many_players(old(self)@),
            final(self)@ == old(self)@.acted(pid, t),
    {
        let i: usize = pid as usize;
        match self.players.intent[i] {
            Intent::Idle => {},
            Intent::Chop => self.do_chop(pid, t),
            Intent::Mine => self.do_mine(pid, t),
            Intent::Pick => self.do_pick(pid, t),
            Intent::Fish => self.do_fish(pid, t),
            Intent::Pickup => self.do_pickup(pid, t),
            Intent::Attack { mid } => self.do_attack(pid, mid as u16),
            Intent::Trade { pid: other_pid } => {
                self.request_player_trade(pid, other_pid as u16);
                self.rest(pid);
            },
            Intent::Talk => {
                proof {
                    lemma_cell(self@, t.0, t.1);
                }
                let o: Obj = *self.obj(t.0, t.1);
                self.players.set_ui(i, ui_for(o));
                self.players.aim(i, Intent::Idle, None);
            },
        }
    }

    fn walk(&mut self, pid: u16, t: (i32, i32))
        requires
            old(self).wf(),
            old(self)@.has(pid),
        ensures
            final(self).wf(),
            final(self)@.as_many_players(old(self)@),
            final(self)@ == old(self)@.walked(pid, t),
    {
        let i: usize = pid as usize;
        assert(self@.p(pid).ok(self@.w, self@.h, self@.players.slots.len()));
        let pos: (i32, i32) = (self.players.xs[i] as i32, self.players.ys[i] as i32);
        let beside: bool = !matches!(self.players.intent[i], Intent::Idle | Intent::Pickup);
        let goal: GoalKind = if beside {
            GoalKind::Adjacent(t)
        } else {
            GoalKind::Step(t)
        };
        let ghost trip = self@.way(pid, t);
        match self.bfs(pos, goal, pid as i32) {
            Some(path) => {
                if path.len() > 0 {
                    let step: (i32, i32) = path[0];
                    proof {
                        law_route_is_walkable(trip, 0);
                    }
                    if self.walkable(step.0, step.1, pid as i32) {
                        self.players.set_pos(i, step.0 as i16, step.1 as i16);
                    }
                }
            },
            None => {
                self.players.aim(i, Intent::Idle, None);
                self.players.push_log(i, "Can't reach there.".to_owned());
            },
        }
    }

    /// Lets a player have its turn: it acts where it has arrived, else takes a step.
    pub fn process_player(&mut self, pid: u16)
        requires
            old(self).wf(),
            old(self)@.has(pid),
        ensures
            final(self).wf(),
            final(self)@.as_many_players(old(self)@),
            final(self)@ == old(self)@.player_turn(pid),
            final(self)@.lists_changes(old(self)@),
    {
        proof {
            law_turn_lists_changes(self@, pid);
        }
        let i: usize = pid as usize;
        assert(self@.p(pid).ok(self@.w, self@.h, self@.players.slots.len()));
        if !self.players.alive[i] {
            return;
        }
        let pos: (i32, i32) = (self.players.xs[i] as i32, self.players.ys[i] as i32);
        let intent: Intent = self.players.intent[i];
        let target: Option<(i32, i32)> = match intent {
            Intent::Attack { mid } => {
                let m: usize = mid as usize;
                if m < self.mobs.alive.len() && self.mobs.alive[m] && self.mobs.respawn_at[m] == 0 {
                    Some((self.mobs.xs[m] as i32, self.mobs.ys[m] as i32))
                } else {
                    self.rest(pid);
                    return;
                }
            },
            Intent::Trade { pid: other_pid } => {
                let o: usize = other_pid as usize;
                if o < self.players.alive.len() && self.players.alive[o] {
                    Some((self.players.xs[o] as i32, self.players.ys[o] as i32))
                } else {
                    self.players.aim(i, Intent::Idle, None);
                    self.players.push_log(i, "They are no longer here.".to_owned());
                    return;
                }
            },
            _ => self.players.target[i],
        };
        assert(target == self@.bound_for(pid));
        let t: (i32, i32) = match target {
            Some(t) => t,
            None => {
                return;
            },
        };
        let beside: bool = !matches!(intent, Intent::Idle | Intent::Pickup);
        let at_goal: bool = if beside {
            chebyshev(pos, t) == 1
        } else {
            pos.0 == t.0 && pos.1 == t.1
        };
        if at_goal {
            self.act(pid, t);
        } else {
            self.walk(pid, t);
        }
    }

    fn start_tick(&mut self)
        requires
            old(self).wf(),
        ensures
            final(self).wf(),
            final(self)@.as_many_players(old(self)@),
            final(self)@ == old(self)@.next_tick(),
    {
        self.tick = self.tick.wrapping_add(1);
        self.players.clear_audit();
        self.mobs.clear_audit();
        self.ground.clear_audit();
        self.objects_dirty.clear();
        self.events.clear();
        assert(self@ =~= old(self)@.next_tick());
    }

    fn grow(&mut self)
        requires
            old(self).wf(),
        ensures
            final(self).wf(),
            final(self)@.as_many_players(old(self)@),
            final(self)@ == old(self)@.grown(),
    {
        let now: u64 = self.tick;
        let ghost s = self@;
        let ghost old_dirty = self.objects_dirty@;
        let mut i: usize = 0;
        assert(old_dirty + Seq::<u32>::empty() =~= old_dirty);
        while i < self.objects.len()
            invariant
                i <= self.objects.len(),
                now == s.tick,
                s.wf(),
                self.wf(),
                s == old(self)@,
                self@ == (SimV { objects: self@.objects, objects_dirty: self@.objects_dirty, ..s }),
                self.objects@.len() == s.objects.len(),
                old_dirty == s.objects_dirty,
                forall|k: int|
                    0 <= k < i ==> #[trigger] self.objects@[k] == match regrown(s.objects[k], now) {
                        Some(o) => o,
                        None => s.objects[k],
                    },
                forall|k: int|
                    i <= k < self.objects@.len() ==> #[trigger] self.objects@[k] == s.objects[k],
                self.objects_dirty@ == old_dirty + due_below(s.objects, now, i as int),
            decreases self.objects.len() - i,
        {
            if let Some(o) = regrow(self.objects[i], now) {
                self.objects[i] = o;
                self.objects_dirty.push(i as u32);
                assert(self.objects_dirty@ =~= old_dirty + due_below(s.objects, now, i + 1));
            }
            i = i + 1;
        }
        assert(self@ =~= s.grown());
    }

    fn recover(&mut self)
        requires
            old(self).wf(),
        ensures
            final(self).wf(),
            final(self)@.as_many_players(old(self)@),
            final(self)@ == old(self)@.recovered(),
    {
        let ghost s = self@;
        let mut i: usize = 0;
        while i < self.players.alive.len()
            invariant
                i <= self.players.alive.len(),
                s == old(self)@,
                s.wf(),
                self.wf(),
                self@.players.slots.len() == s.players.slots.len(),
                self@ == (SimV {
                    players: PlayersV { slots: self@.players.slots, ..s.players },
                    ..s
                }),
                forall|k: int|
                    0 <= k < i ==> #[trigger] self@.players.slots[k] == s.players.slots[k].recovered(),
                forall|k: int|
                    i <= k < s.players.slots.len() ==> #[trigger] self@.players.slots[k]
                        == s.players.slots[k],
            decreases self.players.alive.len() - i,
        {
            let ghost before = self@;
            assert(s.players.slots[i as int].ok(s.w, s.h, s.players.slots.len()));
            assert(self@.players.slots[i as int] == s.players.slots[i as int]);
            if self.players.alive[i] {
                let ticks: u32 = self.players.regen_ctr[i] + 1;
                let hp: i16 = self.players.hp_cur[i];
                let max: i16 = self.players.skills[i].hp as i16;
                if ticks as u64 >= 6 * TPS {
                    self.players.set_regen(i, 0);
                    if hp < max {
                        self.players.set_hp(i, hp + 1);
                    }
                } else {
                    self.players.set_regen(i, ticks);
                }
                assert(self@.players.slots[i as int] == s.players.slots[i as int].recovered());
                assert(self@.players.slots.len() == self.players.alive@.len());
                assert(self@.players.slots =~= before.players.slots.update(
                    i as int,
                    s.players.slots[i as int].recovered(),
                ));
            }
            i = i + 1;
        }
        assert(self@.players.slots =~= s.recovered().players.slots);
        assert(self@ =~= s.recovered());
    }

    fn all_players(&mut self)
        requires
            old(self).wf(),
        ensures
            final(self).wf(),
            final(self)@.as_many_players(old(self)@),
            final(self)@ == old(self)@.players_turns(
                old(self)@.players.live(),
                old(self)@.players.live().len() as int,
            ),
            final(self)@.lists_changes(old(self)@),
            old(self)@.tick < 0xffff_ffff_0000_0000 && nothing_overdue(old(self)@)
                && old(self)@.players.slots.len() <= 0x1_0000 ==> nothing_overdue(final(self)@)
                && final(self)@.tick == old(self)@.tick,
    {
        let ghost s = self@;
        let pids: Vec<u16> = self.players.iter_live();
        proof {
            lemma_live_below(s.players.alive(), s.players.slots.len() as int);
        }
        let mut k: usize = 0;
        while k < pids.len()
            invariant
                k <= pids.len(),
                self.wf(),
                self@.players.slots.len() == s.players.slots.len(),
                forall|j: int| 0 <= j < pids@.len() ==> (#[trigger] pids@[j]) < s.players.slots.len(),
                self@ == s.players_turns(pids@, k as int),
                self@.lists_changes(s),
                s == old(self)@,
                s.tick < 0xffff_ffff_0000_0000 && nothing_overdue(s) && s.players.slots.len()
                    <= 0x1_0000 ==> nothing_overdue(self@) && self@.tick == s.tick,
            decreases pids.len() - k,
        {
            let ghost before = self@;
            proof {
                if s.tick < 0xffff_ffff_0000_0000 && nothing_overdue(s) && s.players.slots.len()
                    <= 0x1_0000 {
                    law_turns_leave_nothing_due(self@, pids@[k as int]);
                }
            }
            self.process_player(pids[k]);
            proof {
                lemma_lists_changes_on(s, before, self@);
            }
            k = k + 1;
        }
    }

    fn all_mobs(&mut self)
        requires
            old(self).wf(),
        ensures
            final(self).wf(),
            final(self)@.as_many_players(old(self)@),
            final(self)@ == old(self)@.mobs_turns(
                old(self)@.mobs.live(),
                old(self)@.mobs.live().len() as int,
            ),
            final(self)@.same_map(old(self)@),
            final(self)@.tick == old(self)@.tick,
    {
        let ghost s = self@;
        let mids: Vec<u16> = self.mobs.iter_live();
        proof {
            lemma_live_below(s.mobs.alive(), s.mobs.slots.len() as int);
        }
        let mut k: usize = 0;
        while k < mids.len()
            invariant
                k <= mids.len(),
                self.wf(),
                self@.mobs.slots.len() == s.mobs.slots.len(),
                self@.as_many_players(s),
                s == old(self)@,
                forall|j: int| 0 <= j < mids@.len() ==> (#[trigger] mids@[j]) < s.mobs.slots.len(),
                self@ == s.mobs_turns(mids@, k as int),
                self@.same_map(s),
                self@.tick == s.tick,
            decreases mids.len() - k,
        {
            proof {
                law_creatures_leave_the_map(self@, mids@[k as int]);
            }
            self.process_mob(mids[k]);
            k = k + 1;
        }
    }

    /// Lets a tick pass. Every cell that it changes is listed, and nothing is left that was
    /// due.
    pub fn tick_world(&mut self)
        requires
            old(self).wf(),
        ensures
            final(self).wf(),
            final(self)@.as_many_players(old(self)@),
            final(self)@ == old(self)@.ticked(),
            final(self)@.lists_changes(old(self)@.next_tick()),
            old(self)@.tick < 0xffff_fffe_0000_0000 && old(self)@.players.slots.len() <= 0x1_0000
                ==> final(self)@.tick == old(self)@.tick + 1 && nothing_overdue(final(self)@),
    {
        self.start_tick();
        proof {
            law_growth_lists_changes(self@);
            if old(self)@.tick < 0xffff_fffe_0000_0000 {
                law_growth_leaves_nothing_due(self@);
            }
        }
        self.grow();
        let ghost grown = self@;
        self.all_players();
        proof {
            lemma_lists_changes_on(old(self)@.next_tick(), grown, self@);
        }
        self.all_mobs();
        self.recover();
    }

    /// What a player's things make of it.
    pub fn player_derived(&self, pid: u16) -> (r: PlayerDerived)
        requires
            self.wf(),
            self@.has(pid),
        ensures
            r == derived(self@.p(pid)),
    {
        let i: usize = pid as usize;
        let axe_tier: i32 = match best_tool(self.players.inv[i].as_slice(), "axe") {
            Some(t) => t.tier,
            None => 0,
        };
        let pickaxe_tier: i32 = match best_tool(self.players.inv[i].as_slice(), "pickaxe") {
            Some(t) => t.tier,
            None => 0,
        };
        let rod_tier: i32 = match highest_owned_rod(
            self.players.inv[i].as_slice(),
            &self.players.equipment[i],
        ) {
            Some(f) => f.tier + 1,
            None => 0,
        };
        PlayerDerived {
            axe_tier,
            pickaxe_tier,
            rod_tier,
            armor_defence: armor_defence_bonus(&self.players.equipment[i]),
            weapon_damage: weapon_damage_bonus(&self.players.equipment[i]),
        }
    }
}

} // verus!
