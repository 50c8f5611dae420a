//! Fighting: the rolls, a player's blow at a creature, and what a creature does.

use vstd::prelude::*;
use crate::defs::{
    armor_defence_bonus, item_name, mob_def, mob_kind_by_id, tool_defs, weapon_damage_bonus, MobDef,
    ToolDef,
};
use crate::defs::{armor_bonus, item_label, mob_kind, mob_of, tools_table, weapon_bonus};
use crate::gather::more_xp;
use crate::levels::{level_from_xp, level_of, xp_with_bonus};
use crate::path::{law_route_is_walkable, GoalKind, Trip};
use crate::pools::{lemma_live_below, MobV, PlayerV};
use crate::rounding::{
    below_ratio, chance_below, chance_ratio, fraction_of, next_random, rand_range, range_of, single,
    to_single,
};
use crate::sim::{
    chebyshev, chebyshev_of, lemma_update_twice, manhattan, manhattan_of, EventRec, Sim, SimV,
};
use crate::text::{decimal, int_text, join3, join5};
use crate::types::{closed_ui, Intent, Skills, UiState, TPS};

verus! {

broadcast use lemma_update_twice;

/// No player: a creature walks around all of them.
pub const NOBODY: i32 = -1;

/// The chance that a hit lands is the first of these numbers over the second:
/// `atk + 8` over `atk + def + 16`, each sum as a 32-bit float holds it.
pub open spec fn hit_ratio(atk: int, def: int) -> (int, int) {
    (single(single(atk) + 8), single(single(single(atk) + single(def)) + 16))
}

/// A quarter of a number, cut towards zero.
pub open spec fn quarter(x: int) -> int {
    if x >= 0 {
        x / 4
    } else {
        -((-x) / 4)
    }
}

/// A roll for a hit from a random state: the damage, and the state after it. A hit that
/// lands does between 1 and one more than a quarter of the strength.
#[verifier::opaque]
pub open spec fn roll(rng: u64, atk: int, def: int, strength: int) -> (int, u64) {
    let r = next_random(rng);
    let (n, d) = hit_ratio(atk, def);
    let most = 1 + quarter(strength);
    if !below_ratio(fraction_of(r), n, d) {
        (0, r)
    } else if most <= 0 {
        (1, r)
    } else {
        let q = next_random(r);
        (1 + range_of(q, most as i32), q)
    }
}

fn quarter_of(x: i32) -> (r: i32)
    ensures
        r == quarter(x as int),
{
    if x >= 0 {
        x / 4
    } else {
        let m: i64 = -(x as i64);
        (-(m / 4)) as i32
    }
}

/// Rolls for a hit and returns its damage.
pub fn roll_hit(rng: &mut u64, atk: i32, def: i32, strength: i32) -> (r: i32)
    ensures
        (r as int, *final(rng)) == roll(*old(rng), atk as int, def as int, strength as int),
        strength >= 0 ==> 0 <= r <= 1 + strength / 4,
{
    reveal(roll);
    let a: i64 = to_single(atk as i64);
    let n: i64 = to_single(a + 8);
    let d: i64 = to_single(to_single(a + to_single(def as i64)) + 16);
    if chance_ratio(rng, n, d) {
        1 + rand_range(rng, 1 + quarter_of(strength))
    } else {
        0
    }
}

/// A blow does between no damage and one more than a quarter of the strength.
pub proof fn law_roll_bounds(rng: u64, atk: int, def: int, strength: int)
    requires
        0 <= strength <= i32::MAX,
    ensures
        0 <= roll(rng, atk, def, strength).0 <= 1 + strength / 4,
{
    reveal(roll);
    let q = next_random(next_random(rng));
    let n = 1 + strength / 4;
    assert(0 <= (q as int) % n < n) by (nonlinear_arith)
        requires
            n > 0,
            q >= 0,
    ;
}

/// The chance of a drop, in units of 2^-64: one twentieth, a quarter of it for each
/// tier, as a 32-bit float gives it.
pub open spec fn drop_chance(tier: int) -> nat {
    if tier == 1 {
        13421773 * 0x4_0000_0000
    } else if tier == 2 {
        13421773 * 0x1_0000_0000
    } else if tier == 3 {
        13421773 * 0x4000_0000
    } else {
        13421773 * 0x1000_0000
    }
}

/// What a creature of a tier drops besides coins, from the tools from row `k` on: for
/// each tool of the tier one number is drawn.
pub open spec fn drops_from(rng: u64, tier: int, k: int) -> (Seq<ToolDef>, u64)
    decreases 8 - k,
{
    if k >= 8 {
        (Seq::empty(), rng)
    } else {
        let t = tools_table()[k];
        if t.tier != tier {
            drops_from(rng, tier, k + 1)
        } else {
            let r = next_random(rng);
            let (rest, last) = drops_from(r, tier, k + 1);
            if fraction_of(r) < drop_chance(tier) {
                (seq![t] + rest, last)
            } else {
                (rest, last)
            }
        }
    }
}

/// Rolls for what a creature drops besides coins.
pub fn roll_mob_drops(rng: &mut u64, tier: i32) -> (r: Vec<ToolDef>)
    ensures
        (r@, *final(rng)) == drops_from(*old(rng), tier as int, 0),
{
    let limit: u128 = if tier == 1 {
        13421773 * 0x4_0000_0000
    } else if tier == 2 {
        13421773 * 0x1_0000_0000
    } else if tier == 3 {
        13421773 * 0x4000_0000
    } else {
        13421773 * 0x1000_0000
    };
    let tools: [ToolDef; 8] = tool_defs();
    let mut out: Vec<ToolDef> = Vec::new();
    let mut k: usize = 0;
    let ghost start = *rng;
    assert(out@ + drops_from(start, tier as int, 0).0 =~= drops_from(start, tier as int, 0).0);
    while k < 8
        invariant
            k <= 8,
            limit == drop_chance(tier as int),
            tools@ == tools_table(),
            start == *old(rng),
            out@ + drops_from(*rng, tier as int, k as int).0 == drops_from(start, tier as int, 0).0,
            drops_from(*rng, tier as int, k as int).1 == drops_from(start, tier as int, 0).1,
        decreases 8 - k,
    {
        let t: ToolDef = tools[k];
        let ghost now = *rng;
        let ghost had = out@;
        if t.tier == tier {
            let ghost rest = drops_from(next_random(now), tier as int, k + 1).0;
            if chance_below(rng, limit) {
                out.push(t);
                assert(had.push(t) + rest =~= had + (seq![t] + rest));
            }
        }
        k = k + 1;
    }
    assert(out@ + Seq::<ToolDef>::empty() =~= out@);
    out
}

impl PlayerV {
    /// The player after it trained attack and strength by a blow.
    pub open spec fn trained_by_blow(self, dmg: int) -> PlayerV {
        let s = self.skills;
        let a = more_xp(s.attack_xp, 8 + dmg * 4, s.angel_points);
        let b = more_xp(s.strength_xp, dmg * 4, s.angel_points);
        PlayerV {
            skills: Skills {
                attack_xp: a,
                attack: level_of(a),
                strength_xp: b,
                strength: level_of(b),
                ..s
            },
            ..self
        }.leveled("Attack"@, s.attack, level_of(a)).leveled("Strength"@, s.strength, level_of(b))
    }

    /// The player after a blow taken: a miss trains defence, a hit trains hit points.
    pub open spec fn trained_by_wound(self, dmg: int) -> PlayerV {
        let s = self.skills;
        if dmg == 0 {
            let xp = more_xp(s.defence_xp, 8, s.angel_points);
            PlayerV {
                skills: Skills { defence_xp: xp, defence: level_of(xp), ..s },
                ..self
            }.leveled("Defence"@, s.defence, level_of(xp))
        } else {
            let xp = more_xp(s.hp_xp, dmg, s.angel_points);
            let hp = (level_of(xp) + 9) as i32;
            PlayerV { skills: Skills { hp_xp: xp, hp, ..s }, ..self }.leveled("HP"@, s.hp, hp)
        }
    }

    /// The player after a blow of a creature at `pos`: it strikes back if it has
    /// nothing else to do, and wakes at the start if it died.
    #[verifier::opaque]
    pub open spec fn struck(
        self,
        kind: Seq<char>,
        dmg: int,
        mid: u16,
        pos: (i32, i32),
        home: (i32, i32),
    ) -> PlayerV {
        let hp = if self.hp_cur > dmg {
            (self.hp_cur - dmg) as i16
        } else {
            0
        };
        let line = if dmg == 0 {
            "The "@ + kind + " misses you."@
        } else {
            "The "@ + kind + " hits you for "@ + decimal(dmg) + "."@
        };
        PlayerV { hp_cur: hp, ..self }.said(line).trained_by_wound(dmg).after_blow(mid, pos, home)
    }

    /// The player once a blow is over: awake at the start if it died of it, else
    /// ready to strike back if it has nothing else to do.
    pub open spec fn after_blow(self, mid: u16, pos: (i32, i32), home: (i32, i32)) -> PlayerV {
        if self.hp_cur == 0 {
            PlayerV {
                hp_cur: self.skills.hp as i16,
                x: home.0 as i16,
                y: home.1 as i16,
                ui: closed_ui(),
                ..self
            }.idle().said("You die! Respawning..."@)
        } else if self.intent is Idle {
            PlayerV { intent: Intent::Attack { mid: mid as u32 }, target: Some(pos), ..self }
        } else {
            self
        }
    }
}

impl SimV {
    /// The world after the first `n` of the listed tools fell on a cell, the player
    /// told of each.
    pub open spec fn spilled(
        self,
        pid: u16,
        kind: Seq<char>,
        x: i32,
        y: i32,
        drops: Seq<ToolDef>,
        n: int,
    ) -> SimV
        decreases n,
    {
        if n <= 0 {
            self
        } else {
            let item = drops[n - 1].item@;
            self.spilled(pid, kind, x, y, drops, n - 1).dropped(x, y, item, 1).tell(
                pid,
                "The "@ + kind + " drops "@ + item_label(item) + "!"@,
            )
        }
    }

    /// The world after a player killed a creature.
    pub open spec fn slain(self, pid: u16, mid: u16) -> SimV {
        let m = self.m(mid);
        let kind = mob_kind(m.kind_id);
        let def = mob_of(kind);
        let (drops, rng) = drops_from(self.rng, def.tier as int, 0);
        let s = self.put(pid, self.p(pid).said("You kill the "@ + kind + "!"@).idle());
        SimV { rng, ..s }.put_mob(
            mid,
            MobV { respawn_at: self.tick.wrapping_add((20 * TPS) as u64), ..m },
        ).dropped(m.x as i32, m.y as i32, "coins"@, def.coin).spilled(
            pid,
            kind,
            m.x as i32,
            m.y as i32,
            drops,
            drops.len() as int,
        )
    }

    /// The world after a player struck at a creature.
    pub open spec fn attack(self, pid: u16, mid: u16) -> SimV {
        if mid >= self.mobs.slots.len() || !self.m(mid).alive {
            self
        } else {
            let (p, m) = (self.p(pid), self.m(mid));
            let w = weapon_bonus(p.equipment);
            let (dmg, rng) = roll(
                self.rng,
                p.skills.attack + w,
                m.defence as int,
                p.skills.strength + w,
            );
            let kind = mob_kind(m.kind_id);
            let hp = if m.hp_cur > dmg {
                (m.hp_cur - dmg) as i16
            } else {
                0
            };
            let event = if dmg == 0 {
                EventRec::MissMob { x: m.x, y: m.y }
            } else {
                EventRec::HitMob { x: m.x, y: m.y, dmg: dmg as i16 }
            };
            let line = if dmg == 0 {
                "You miss the "@ + kind + "."@
            } else {
                "You hit the "@ + kind + " for "@ + decimal(dmg) + "."@
            };
            let s = SimV { rng, ..self }.put_mob(mid, MobV { hp_cur: hp, ..m }).event(event).put(
                pid,
                p.said(line).trained_by_blow(dmg),
            );
            if hp == 0 {
                s.slain(pid, mid)
            } else {
                s
            }
        }
    }

    /// How far a live player is from a creature.
    pub open spec fn away(self, pid: u16, mid: u16) -> i32 {
        manhattan_of(
            (self.p(pid).x as i32, self.p(pid).y as i32),
            (self.m(mid).x as i32, self.m(mid).y as i32),
        )
    }

    /// The nearest of the first `n` live players within a creature's reach, the first
    /// where several are as near.
    pub open spec fn prey(self, mid: u16, n: int) -> Option<u16>
        decreases n,
    {
        if n <= 0 {
            None
        } else {
            let best = self.prey(mid, n - 1);
            let h = self.players.live()[n - 1];
            if self.away(h, mid) <= mob_of(mob_kind(self.m(mid).kind_id)).aggro && (best is None
                || self.away(h, mid) < self.away(best.unwrap(), mid)) {
                Some(h)
            } else {
                best
            }
        }
    }

    /// The world after a creature struck at a player next to it.
    pub open spec fn mob_strike(self, mid: u16, pid: u16) -> SimV {
        let (p, m) = (self.p(pid), self.m(mid));
        let (dmg, rng) = roll(
            self.rng,
            m.attack as int,
            p.skills.defence + armor_bonus(p.equipment),
            m.strength as int,
        );
        let event = if dmg == 0 {
            EventRec::MissPlayer { x: p.x, y: p.y }
        } else {
            EventRec::HitPlayer { x: p.x, y: p.y, dmg: dmg as i16 }
        };
        SimV { rng, ..self }.event(event).put(
            pid,
            p.struck(
                mob_kind(m.kind_id),
                dmg,
                mid,
                (m.x as i32, m.y as i32),
                self.player_spawn,
            ),
        )
    }

    /// The world after a creature took a step towards a player, if there is a way.
    pub open spec fn mob_step(self, mid: u16, pid: u16) -> SimV {
        let m = self.m(mid);
        let trip = Trip {
            s: self,
            from: (m.x as i32, m.y as i32),
            goal: GoalKind::Adjacent((self.p(pid).x as i32, self.p(pid).y as i32)),
            ignore_pid: NOBODY,
        };
        match trip.route() {
            Some(cells) => if cells.len() > 0 {
                self.put_mob(mid, MobV { x: cells[0].0 as i16, y: cells[0].1 as i16, ..m })
            } else {
                self
            },
            None => self,
        }
    }

    /// The world after a creature had its turn: a fallen one rises again when its
    /// time has come; one that is up strikes the nearest player in its reach, or
    /// goes there.
    pub open spec fn mob_turn(self, mid: u16) -> SimV {
        let m = self.m(mid);
        if !m.alive {
            self
        } else if m.respawn_at != 0 {
            if self.tick >= m.respawn_at {
                self.put_mob(
                    mid,
                    MobV { x: m.home.0, y: m.home.1, hp_cur: m.hp_max, respawn_at: 0, ..m },
                )
            } else {
                self
            }
        } else {
            match self.prey(mid, self.players.live().len() as int) {
                None => self,
                Some(pid) => if chebyshev_of(
                    (m.x as i32, m.y as i32),
                    (self.p(pid).x as i32, self.p(pid).y as i32),
                ) == 1 {
                    self.mob_strike(mid, pid)
                } else {
                    self.mob_step(mid, pid)
                },
            }
        }
    }
}

/// A hit of a creature never takes a player's hit points below zero, and a player
/// that a creature struck is never left without any.
pub proof fn law_struck_alive(
    p: PlayerV,
    kind: Seq<char>,
    dmg: int,
    mid: u16,
    pos: (i32, i32),
    home: (i32, i32),
)
    requires
        0 <= dmg <= 1000,
        p.skills.wf(),
    ensures
        p.struck(kind, dmg, mid, pos, home).hp_cur > 0,
{
    reveal(PlayerV::struck);
    if dmg > 0 {
        let xp = more_xp(p.skills.hp_xp, dmg, p.skills.angel_points);
        crate::levels::law_level_brackets_xp(xp);
    }
}

impl Sim {
    fn train_by_blow(&mut self, pid: u16, dmg: i32)
        requires
            old(self).wf(),
            old(self)@.has(pid),
            0 <= dmg <= 1000,
        ensures
            final(self).wf(),
            final(self)@.as_many_players(old(self)@),
            final(self)@ == old(self)@.put(pid, old(self)@.p(pid).trained_by_blow(dmg as int)),
    {
        let i: usize = pid as usize;
        assert(self@.p(pid).ok(self@.w, self@.h, self@.players.slots.len()));
        let mut skills: Skills = self.players.skills[i];
        let ap: i32 = skills.angel_points;
        let old_attack: i32 = skills.attack;
        let old_strength: i32 = skills.strength;
        skills.attack_xp = skills.attack_xp.wrapping_add(xp_with_bonus(8 + dmg * 4, ap));
        skills.attack = level_from_xp(skills.attack_xp);
        skills.strength_xp = skills.strength_xp.wrapping_add(xp_with_bonus(dmg * 4, ap));
        skills.strength = level_from_xp(skills.strength_xp);
        let new_attack: i32 = skills.attack;
        let new_strength: i32 = skills.strength;
        self.players.set_skills(i, skills);
        self.log_level_up(pid, "Attack", old_attack, new_attack);
        self.log_level_up(pid, "Strength", old_strength, new_strength);
    }

    fn train_by_wound(&mut self, pid: u16, dmg: i32)
        requires
            old(self).wf(),
            old(self)@.has(pid),
            0 <= dmg <= 1000,
        ensures
            final(self).wf(),
            final(self)@.as_many_players(old(self)@),
            final(self)@ == old(self)@.put(pid, old(self)@.p(pid).trained_by_wound(dmg as int)),
    {
        let i: usize = pid as usize;
        assert(self@.p(pid).ok(self@.w, self@.h, self@.players.slots.len()));
        let mut skills: Skills = self.players.skills[i];
        let ap: i32 = skills.angel_points;
        if dmg == 0 {
            let before: i32 = skills.defence;
            skills.defence_xp = skills.defence_xp.wrapping_add(xp_with_bonus(8, ap));
            skills.defence = level_from_xp(skills.defence_xp);
            let after: i32 = skills.defence;
            self.players.set_skills(i, skills);
            self.log_level_up(pid, "Defence", before, after);
        } else {
            let before: i32 = skills.hp;
            skills.hp_xp = skills.hp_xp.wrapping_add(xp_with_bonus(dmg, ap));
            skills.hp = 10 + level_from_xp(skills.hp_xp) - 1;
            let after: i32 = skills.hp;
            self.players.set_skills(i, skills);
            self.log_level_up(pid, "HP", before, after);
        }
    }

    fn spill(&mut self, pid: u16, kind: &str, x: i32, y: i32, drops: &Vec<ToolDef>)
        requires
            old(self).wf(),
            old(self)@.has(pid),
        ensures
            final(self).wf(),
            final(self)@.as_many_players(old(self)@),
            final(self)@ == old(self)@.spilled(pid, kind@, x, y, drops@, drops@.len() as int),
    {
        let ghost s = self@;
        let mut k: usize = 0;
        while k < drops.len()
            invariant
                k <= drops.len(),
                self.wf(),
                self@.has(pid),
                self@.players.slots.len() == s.players.slots.len(),
                s == old(self)@,
                self@ == s.spilled(pid, kind@, x, y, drops@, k as int),
            decreases drops.len() - k,
        {
            let item: &str = drops[k].item;
            self.drop_ground(x, y, item, 1);
            self.tell(pid, join5("The ", kind, " drops ", item_name(item), "!"));
            k = k + 1;
        }
    }

    fn slay(&mut self, pid: u16, mid: u16)
        requires
            old(self).wf(),
            old(self)@.has(pid),
            mid < old(self)@.mobs.slots.len(),
        ensures
            final(self).wf(),
            final(self)@.as_many_players(old(self)@),
            final(self)@ == old(self)@.slain(pid, mid),
    {
        let m: usize = mid as usize;
        assert(self@.m(mid).ok());
        let x: i32 = self.mobs.xs[m] as i32;
        let y: i32 = self.mobs.ys[m] as i32;
        let kind: &str = mob_kind_by_id(self.mobs.kind_id[m]);
        self.tell(pid, join3("You kill the ", kind, "!"));
        self.rest(pid);
        let def: MobDef = mob_def(kind);
        let drops: Vec<ToolDef> = roll_mob_drops(&mut self.rng, def.tier);
        let at: u64 = self.tick.wrapping_add(20 * TPS);
        self.mobs.set_respawn(m, at);
        self.drop_ground(x, y, "coins", def.coin);
        self.spill(pid, kind, x, y, &drops);
    }

    /// Strikes at a creature.
    pub fn do_attack(&mut self, pid: u16, mid: u16)
        requires
            old(self).wf(),
            old(self)@.has(pid),
        ensures
            final(self).wf(),
            final(self)@.as_many_players(old(self)@),
            final(self)@ == old(self)@.attack(pid, mid),
    {
        let i: usize = pid as usize;
        let m: usize = mid as usize;
        if m >= self.mobs.alive.len() || !self.mobs.alive[m] {
            return;
        }
        assert(self@.p(pid).ok(self@.w, self@.h, self@.players.slots.len()));
        assert(self@.m(mid).ok());
        let w: i32 = weapon_damage_bonus(&self.players.equipment[i]);
        let atk: i32 = self.players.skills[i].attack + w;
        let strength: i32 = self.players.skills[i].strength + w;
        let mdef: i32 = self.mobs.defence[m];
        let x: i16 = self.mobs.xs[m];
        let y: i16 = self.mobs.ys[m];
        let kind: &str = mob_kind_by_id(self.mobs.kind_id[m]);
        let dmg: i32 = roll_hit(&mut self.rng, atk, mdef, strength);
        let left: i16 = self.mobs.hp_cur[m] - dmg as i16;
        let hp: i16 = if left > 0 {
            left
        } else {
            0
        };
        self.mobs.set_hp(m, hp);
        let event: EventRec = if dmg == 0 {
            EventRec::MissMob { x, y }
        } else {
            EventRec::HitMob { x, y, dmg: dmg as i16 }
        };
        self.events.push(event);
        let line: String = if dmg == 0 {
            join3("You miss the ", kind, ".")
        } else {
            join5("You hit the ", kind, " for ", int_text(dmg as i64).as_str(), ".")
        };
        self.players.push_log(i, line);
        assert(self@.wf());
        self.train_by_blow(pid, dmg);
        if hp == 0 {
            self.slay(pid, mid);
        }
    }

    fn find_prey(&self, mid: u16) -> (r: Option<u16>)
        requires
            self.wf(),
            mid < self@.mobs.slots.len(),
        ensures
            r == self@.prey(mid, self@.players.live().len() as int),
            r matches Some(pid) ==> self@.has(pid),
    {
        let m: usize = mid as usize;
        assert(self@.m(mid).ok());
        let pos: (i32, i32) = (self.mobs.xs[m] as i32, self.mobs.ys[m] as i32);
        let aggro: i32 = mob_def(mob_kind_by_id(self.mobs.kind_id[m])).aggro;
        let ids: Vec<u16> = self.players.iter_live();
        proof {
            lemma_live_below(self@.players.alive(), self@.players.slots.len() as int);
        }
        let mut best: Option<u16> = None;
        let mut near: i32 = 0;
        let mut k: usize = 0;
        while k < ids.len()
            invariant
                k <= ids.len(),
                self.wf(),
                m == mid,
                mid < self@.mobs.slots.len(),
                pos == (self@.m(mid).x as i32, self@.m(mid).y as i32),
                aggro == mob_of(mob_kind(self@.m(mid).kind_id)).aggro,
                ids@ == self@.players.live(),
                forall|j: int| 0 <= j < ids@.len() ==> (#[trigger] ids@[j]) < self@.players.slots.len(),
                best == self@.prey(mid, k as int),
                best matches Some(pid) ==> self@.has(pid) && near == self@.away(pid, mid),
            decreases ids.len() - k,
        {
            let h: u16 = ids[k];
            let u: usize = h as usize;
            let at: (i32, i32) = (self.players.xs[u] as i32, self.players.ys[u] as i32);
            let d: i32 = manhattan(at, pos);
            if d <= aggro && (best.is_none() || d < near) {
                best = Some(h);
                near = d;
            }
            k = k + 1;
        }
        best
    }

    fn mob_strike(&mut self, mid: u16, pid: u16)
        requires
            old(self).wf(),
            old(self)@.has(pid),
            mid < old(self)@.mobs.slots.len(),
        ensures
            final(self).wf(),
            final(self)@.as_many_players(old(self)@),
            final(self)@ == old(self)@.mob_strike(mid, pid),
    {
        let m: usize = mid as usize;
        let u: usize = pid as usize;
        assert(self@.p(pid).ok(self@.w, self@.h, self@.players.slots.len()));
        assert(self@.m(mid).ok());
        let pos: (i32, i32) = (self.mobs.xs[m] as i32, self.mobs.ys[m] as i32);
        let kind: &str = mob_kind_by_id(self.mobs.kind_id[m]);
        let x: i16 = self.players.xs[u];
        let y: i16 = self.players.ys[u];
        let pdef: i32 = self.players.skills[u].defence + armor_defence_bonus(
            &self.players.equipment[u],
        );
        let dmg: i32 = roll_hit(&mut self.rng, self.mobs.attack[m], pdef, self.mobs.strength[m]);
        let event: EventRec = if dmg == 0 {
            EventRec::MissPlayer { x, y }
        } else {
            EventRec::HitPlayer { x, y, dmg: dmg as i16 }
        };
        self.events.push(event);
        self.suffer(pid, kind, dmg, mid, pos);
    }

    fn suffer(&mut self, pid: u16, kind: &str, dmg: i32, mid: u16, pos: (i32, i32))
        requires
            old(self).wf(),
            old(self)@.has(pid),
            0 <= dmg <= 1000,
        ensures
            final(self).wf(),
            final(self)@.as_many_players(old(self)@),
            final(self)@ == old(self)@.put(
                pid,
                old(self)@.p(pid).struck(kind@, dmg as int, mid, pos, old(self)@.player_spawn),
            ),
    {
        reveal(PlayerV::struck);
        let u: usize = pid as usize;
        assert(self@.p(pid).ok(self@.w, self@.h, self@.players.slots.len()));
        let left: i16 = self.players.hp_cur[u] - dmg as i16;
        let hp: i16 = if left > 0 {
            left
        } else {
            0
        };
        self.players.set_hp(u, hp);
        let line: String = if dmg == 0 {
            join3("The ", kind, " misses you.")
        } else {
            join5("The ", kind, " hits you for ", int_text(dmg as i64).as_str(), ".")
        };
        self.players.push_log(u, line);
        self.train_by_wound(pid, dmg);
        self.finish_blow(mid, pid, pos);
    }

    fn finish_blow(&mut self, mid: u16, pid: u16, pos: (i32, i32))
        requires
            old(self).wf(),
            old(self)@.has(pid),
        ensures
            final(self).wf(),
            final(self)@.as_many_players(old(self)@),
            final(self)@ == old(self)@.put(
                pid,
                old(self)@.p(pid).after_blow(mid, pos, old(self)@.player_spawn),
            ),
    {
        let u: usize = pid as usize;
        assert(self@.p(pid).ok(self@.w, self@.h, self@.players.slots.len()));
        if self.players.hp_cur[u] == 0 {
            let full: i16 = self.players.skills[u].hp as i16;
            self.players.set_hp(u, full);
            self.players.set_pos(u, self.player_spawn.0 as i16, self.player_spawn.1 as i16);
            self.players.aim(u, Intent::Idle, None);
            self.players.set_ui(u, UiState::default());
            self.players.push_log(u, "You die! Respawning...".to_owned());
        } else if matches!(self.players.intent[u], Intent::Idle) {
            self.players.aim(u, Intent::Attack { mid: mid as u32 }, Some(pos));
        } else {
            assert(self@.players.slots =~= self@.players.slots.update(pid as int, self@.p(pid)));
        }
    }

    fn mob_step(&mut self, mid: u16, pid: u16)
        requires
            old(self).wf(),
            old(self)@.has(pid),
            mid < old(self)@.mobs.slots.len(),
        ensures
            final(self).wf(),
            final(self)@.as_many_players(old(self)@),
            final(self)@ == old(self)@.mob_step(mid, pid),
    {
        let m: usize = mid as usize;
        let u: usize = pid as usize;
        assert(self@.m(mid).ok());
        let pos: (i32, i32) = (self.mobs.xs[m] as i32, self.mobs.ys[m] as i32);
        let goal: GoalKind = GoalKind::Adjacent(
            (self.players.xs[u] as i32, self.players.ys[u] as i32),
        );
        let ghost trip = Trip { s: self@, from: pos, goal, ignore_pid: NOBODY };
        if let Some(path) = self.bfs(pos, goal, NOBODY) {
            if path.len() > 0 {
                let step: (i32, i32) = path[0];
                proof {
                    law_route_is_walkable(trip, 0);
                }
                if self.walkable(step.0, step.1, NOBODY) {
                    self.mobs.set_pos(m, step.0 as i16, step.1 as i16);
                }
            }
        }
    }

    /// Lets a creature have its turn.
    pub fn process_mob(&mut self, mid: u16)
        requires
            old(self).wf(),
            mid < old(self)@.mobs.slots.len(),
        ensures
            final(self).wf(),
            final(self)@.as_many_players(old(self)@),
            final(self)@ == old(self)@.mob_turn(mid),
    {
        let m: usize = mid as usize;
        assert(self@.m(mid).ok());
        if !self.mobs.alive[m] {
            return;
        }
        let respawning: u64 = self.mobs.respawn_at[m];
        if respawning != 0 {
            if self.tick >= respawning {
                let home: (i16, i16) = self.mobs.home[m];
                let hp: i16 = self.mobs.hp_max[m];
                self.mobs.set_pos(m, home.0, home.1);
                self.mobs.set_hp(m, hp);
                self.mobs.set_respawn(m, 0);
            }
            return;
        }
        let pid: u16 = match self.find_prey(mid) {
            Some(h) => h,
            None => {
                return;
            },
        };
        let pos: (i32, i32) = (self.mobs.xs[m] as i32, self.mobs.ys[m] as i32);
        let at: (i32, i32) = (
            self.players.xs[pid as usize] as i32,
            self.players.ys[pid as usize] as i32,
        );
        if chebyshev(pos, at) == 1 {
            self.mob_strike(mid, pid);
        } else {
            self.mob_step(mid, pid);
        }
    }
}

} // verus!
