//! Gathering: chopping, mining, fishing, picking berries and picking things up.

use vstd::prelude::*;
use crate::defs::{
    fish_catch_chance, fish_min_level, item_name, rock_def, tree_def, FishDef, ResourceDef, ToolDef,
};
use crate::defs::{catch_ratio, item_label, min_level, rock_of, tree_of};
use crate::inventory::{
    active_rod, added, best_tool_of, fits, level_too_low,
};
use crate::inventory::{best_tool, choose_active_rod, level_too_low_text};
use crate::levels::{bonus_xp, level_from_xp, level_of, xp_with_bonus};
use crate::pools::PlayerV;
use crate::rounding::{below_quotient, chance_below, chance_quotient, fraction_of, next_random};
use crate::sim::{lemma_has_cell, lemma_update_twice, EventRec, Sim, SimV};
use crate::text::{decimal, int_text, join3, join5, lower_text, lowercase};
use crate::types::{Obj, Skills, Tile, TPS};

verus! {

broadcast use lemma_update_twice;

/// The chance to gather, in units of 2^-26, of a player whose level is `d` above the
/// resource's: 45 percent and 3.5 more for each level, at least 18 and at most 92,
/// as 32-bit floats give it.
pub open spec fn gather_chance(d: int) -> int {
    if d <= -8 {
        12079596
    } else if d == -7 {
        13757316
    } else if d == -6 {
        16106126
    } else if d == -5 {
        18454936
    } else if d == -4 {
        20803748
    } else if d == -3 {
        23152556
    } else if d == -2 {
        25501368
    } else if d == -1 {
        27850178
    } else if d == 0 {
        30198988
    } else if d == 1 {
        32547798
    } else if d == 2 {
        34896608
    } else if d == 3 {
        37245420
    } else if d == 4 {
        39594228
    } else if d == 5 {
        41943040
    } else if d == 6 {
        44291848
    } else if d == 7 {
        46640660
    } else if d == 8 {
        48989472
    } else if d == 9 {
        51338280
    } else if d == 10 {
        53687088
    } else if d == 11 {
        56035900
    } else if d == 12 {
        58384712
    } else if d == 13 {
        60733520
    } else {
        61740156
    }
}

/// The chance lies within 2^-24 of the percentage that it stands for.
pub proof fn law_gather_chance(d: int)
    ensures
        d <= -8 ==> -4000 <= 1000 * gather_chance(d) - 180 * 0x400_0000 <= 4000,
        -7 <= d <= 13 ==> -4000 <= 1000 * gather_chance(d) - (450 + 35 * d) * 0x400_0000 <= 4000,
        d >= 14 ==> -4000 <= 1000 * gather_chance(d) - 920 * 0x400_0000 <= 4000,
{
}

/// How far a level lies above that of a resource: 1 for the first tier and 8 more
/// for each further one.
pub open spec fn level_lead(skill: i32, tier: i32) -> i32 {
    skill.wrapping_sub(1i32.wrapping_add(tier.wrapping_sub(1).wrapping_mul(8)))
}

/// Whether gathering succeeds with the random number `r`.
pub open spec fn gathers(r: u64, skill: i32, tier: i32) -> bool {
    fraction_of(r) < gather_chance(level_lead(skill, tier) as int) * 0x40_0000_0000
}

/// Draws a number and tells whether gathering succeeds.
pub fn gather_success(rng: &mut u64, skill: i32, resource_tier: i32) -> (r: bool)
    ensures
        *final(rng) == next_random(*old(rng)),
        r == gathers(*final(rng), skill, resource_tier),
{
    let d: i32 = skill.wrapping_sub(
        1i32.wrapping_add(resource_tier.wrapping_sub(1).wrapping_mul(8)),
    );
    let k: u128 = if d <= -8 {
        12079596
    } else if d == -7 {
        13757316
    } else if d == -6 {
        16106126
    } else if d == -5 {
        18454936
    } else if d == -4 {
        20803748
    } else if d == -3 {
        23152556
    } else if d == -2 {
        25501368
    } else if d == -1 {
        27850178
    } else if d == 0 {
        30198988
    } else if d == 1 {
        32547798
    } else if d == 2 {
        34896608
    } else if d == 3 {
        37245420
    } else if d == 4 {
        39594228
    } else if d == 5 {
        41943040
    } else if d == 6 {
        44291848
    } else if d == 7 {
        46640660
    } else if d == 8 {
        48989472
    } else if d == 9 {
        51338280
    } else if d == 10 {
        53687088
    } else if d == 11 {
        56035900
    } else if d == 12 {
        58384712
    } else if d == 13 {
        60733520
    } else {
        61740156
    };
    chance_below(rng, k * 0x40_0000_0000)
}

/// Whether a rod of a tier catches with the random number `r`.
pub open spec fn catches(r: u64, level: i32, tier: i32) -> bool {
    let (n, d) = catch_ratio(level, tier);
    below_quotient(fraction_of(r), n as nat, d as nat)
}

/// What a player hears at a level up.
pub open spec fn level_line(skill: Seq<char>, level: int) -> Seq<char> {
    "Level up! "@ + skill + " is now "@ + decimal(level) + "."@
}

/// The experience after a gain, wrapping around.
pub open spec fn more_xp(xp: i32, base: int, angel_points: i32) -> i32 {
    xp.wrapping_add(bonus_xp(base, angel_points as int) as i32)
}

impl PlayerV {
    /// The player, told of a level up where there is one.
    pub open spec fn leveled(self, skill: Seq<char>, old_level: i32, new_level: i32) -> PlayerV {
        if new_level > old_level {
            self.said(level_line(skill, new_level as int))
        } else {
            self
        }
    }

    /// The player after it got one of an item, or heard that there is no room.
    pub open spec fn got(self, item: Seq<char>, line: Seq<char>) -> PlayerV {
        if fits(self.inv, item) {
            PlayerV { inv: added(self.inv, item, 1), ..self }.said(line)
        } else {
            self.said("Inventory full!"@)
        }
    }

    /// The player after it trained woodcutting.
    pub open spec fn trained_woodcutting(self, base: int) -> PlayerV {
        let xp = more_xp(self.skills.woodcutting_xp, base, self.skills.angel_points);
        PlayerV {
            skills: Skills { woodcutting_xp: xp, woodcutting: level_of(xp), ..self.skills },
            ..self
        }.leveled("Woodcutting"@, self.skills.woodcutting, level_of(xp))
    }

    /// The player after it trained mining.
    pub open spec fn trained_mining(self, base: int) -> PlayerV {
        let xp = more_xp(self.skills.mining_xp, base, self.skills.angel_points);
        PlayerV {
            skills: Skills { mining_xp: xp, mining: level_of(xp), ..self.skills },
            ..self
        }.leveled("Mining"@, self.skills.mining, level_of(xp))
    }

    /// The player after it trained fishing.
    pub open spec fn trained_fishing(self, base: int) -> PlayerV {
        let xp = more_xp(self.skills.fishing_xp, base, self.skills.angel_points);
        PlayerV {
            skills: Skills { fishing_xp: xp, fishing: level_of(xp), ..self.skills },
            ..self
        }.leveled("Fishing"@, self.skills.fishing, level_of(xp))
    }
}

/// When something that needs so many seconds has grown again, in ticks.
pub open spec fn regrow_at(tick: u64, secs: u64) -> u64 {
    tick.wrapping_add((secs * TPS) as u64)
}

impl SimV {
    /// The world after a random number was drawn.
    pub open spec fn drawn(self) -> SimV {
        SimV { rng: next_random(self.rng), ..self }
    }


    /// The world after a player chopped at a tree.
    pub open spec fn chop(self, pid: u16, t: (i32, i32)) -> SimV {
        let p = self.p(pid);
        match (best_tool_of(p.inv, "axe"@), self.obj_at(t.0, t.1)) {
            (None, _) => self.tell(pid, "You need an axe."@).rest(pid),
            (Some(tool), Obj::Tree { tier, hp }) => {
                let def = tree_of(tier);
                let s = self.event(EventRec::Chop { x: t.0 as i16, y: t.1 as i16 }).drawn();
                let left = hp.wrapping_sub((tool.power + p.skills.woodcutting / 12) as i32);
                if tool.tier < def.req_tool_tier {
                    self.tell(
                        pid,
                        "You need a tier "@ + decimal(def.req_tool_tier as int) + " axe for "@
                            + def.name@ + "."@,
                    ).rest(pid)
                } else if !gathers(s.rng, p.skills.woodcutting, tier) {
                    s.tell(pid, "You fail to cut the "@ + def.name@ + "."@)
                } else if left > 0 {
                    s.with_obj(t.0, t.1, Obj::Tree { tier, hp: left })
                } else {
                    s.with_obj(
                        t.0,
                        t.1,
                        Obj::Stump { tier, regrow: regrow_at(self.tick, def.regrow_secs) },
                    ).put(
                        pid,
                        p.got(def.item@, "You get "@ + item_label(def.item@) + "."@).trained_woodcutting(
                            def.xp as int,
                        ).idle(),
                    )
                }
            },
            _ => self.rest(pid),
        }
    }

    /// The world after a player mined at a rock.
    pub open spec fn mine(self, pid: u16, t: (i32, i32)) -> SimV {
        let p = self.p(pid);
        match (best_tool_of(p.inv, "pickaxe"@), self.obj_at(t.0, t.1)) {
            (None, _) => self.tell(pid, "You need a pickaxe."@).rest(pid),
            (Some(tool), Obj::Rock { tier, hp }) => {
                let def = rock_of(tier);
                let s = self.event(EventRec::Mine { x: t.0 as i16, y: t.1 as i16 }).drawn();
                let left = hp.wrapping_sub((tool.power + p.skills.mining / 12) as i32);
                if tool.tier < def.req_tool_tier {
                    self.tell(
                        pid,
                        "You need a tier "@ + decimal(def.req_tool_tier as int) + " pickaxe for "@
                            + def.name@ + "."@,
                    ).rest(pid)
                } else if !gathers(s.rng, p.skills.mining, tier) {
                    s.tell(pid, "You fail to mine the "@ + def.name@ + "."@)
                } else if left > 0 {
                    s.with_obj(t.0, t.1, Obj::Rock { tier, hp: left })
                } else {
                    s.with_obj(
                        t.0,
                        t.1,
                        Obj::DepletedRock { tier, regrow: regrow_at(self.tick, def.regrow_secs) },
                    ).put(
                        pid,
                        p.got(def.item@, "You mine "@ + item_label(def.item@) + "."@).trained_mining(
                            def.xp as int,
                        ).idle(),
                    )
                }
            },
            _ => self.rest(pid),
        }
    }

    /// The world after a player fished.
    pub open spec fn fish(self, pid: u16, t: (i32, i32)) -> SimV {
        let p = self.p(pid);
        match active_rod(p.skills.fishing, p.inv, p.equipment) {
            Err(line) => self.tell(pid, line).rest(pid),
            Ok(rod) => {
                let s = self.event(EventRec::Fish { x: t.0 as i16, y: t.1 as i16 }).drawn();
                if self.tile_at(t.0, t.1) !is Water {
                    self.rest(pid)
                } else if p.skills.fishing < min_level(rod.tier) {
                    self.tell(pid, level_too_low(rod)).rest(pid)
                } else if !catches(s.rng, p.skills.fishing, rod.tier) {
                    s.tell(pid, "The "@ + lower_text(rod.fish_name@) + " slips away."@)
                } else if !fits(p.inv, rod.fish@) {
                    s.tell(pid, "Inventory full!"@).rest(pid)
                } else {
                    s.put(
                        pid,
                        p.got(
                            rod.fish@,
                            "You catch a "@ + lower_text(rod.fish_name@) + "."@,
                        ).trained_fishing(rod.xp as int).idle(),
                    )
                }
            },
        }
    }

    /// The world after a player picked a berry.
    pub open spec fn pick(self, pid: u16, t: (i32, i32)) -> SimV {
        match self.obj_at(t.0, t.1) {
            Obj::Bush { berries, regrow } => if berries > 0 {
                let left = (berries - 1) as i32;
                let s = self.with_obj(
                    t.0,
                    t.1,
                    Obj::Bush { berries: left, regrow: regrow_at(self.tick, 8) },
                ).event(EventRec::Pick { x: t.0 as i16, y: t.1 as i16 });
                let p = self.p(pid);
                if !fits(p.inv, "berries"@) {
                    s.tell(pid, "Inventory full!"@).rest(pid)
                } else if left == 0 {
                    s.put(pid, p.got("berries"@, "You pick a berry."@).idle())
                } else {
                    s.put(pid, p.got("berries"@, "You pick a berry."@))
                }
            } else {
                self.rest(pid)
            },
            _ => self.rest(pid),
        }
    }

    /// The world after a player tried to pick up the first `n` of the listed stacks;
    /// and whether it found no room for one of them. From then on everything is
    /// put down again.
    pub open spec fn pick_up(self, pid: u16, ids: Seq<u16>, n: int) -> (SimV, bool)
        decreases n,
    {
        if n <= 0 {
            (self, false)
        } else {
            let (s, full) = self.pick_up(pid, ids, n - 1);
            let h = ids[n - 1];
            let g = s.ground.slots[h as int];
            let s1 = SimV { ground: s.ground.remove_entity(h), ..s };
            if !full && fits(s.p(pid).inv, g.item) {
                let p = s.p(pid);
                (
                    s1.put(
                        pid,
                        PlayerV { inv: added(p.inv, g.item, g.qty), ..p }.said(
                            "You pick up "@ + item_label(g.item) + "."@,
                        ),
                    ),
                    false,
                )
            } else {
                (s1.dropped(g.x as i32, g.y as i32, g.item, g.qty), true)
            }
        }
    }

    /// The world after a player picked up what lies on a cell.
    pub open spec fn pickup(self, pid: u16, t: (i32, i32)) -> SimV {
        let ids = self.stacks_on(t.0, t.1);
        let (s, full) = self.rest(pid).pick_up(pid, ids, ids.len() as int);
        if full {
            s.tell(pid, "Inventory full!"@)
        } else {
            s
        }
    }
}

/// The text that a player hears at a level up.
pub fn level_up_text(skill: &str, level: i32) -> (r: String)
    ensures
        r@ == level_line(skill@, level as int),
{
    join5("Level up! ", skill, " is now ", int_text(level as i64).as_str(), ".")
}

impl Sim {
    /// Tells a player of a level up where there is one.
    pub fn log_level_up(&mut self, pid: u16, skill: &str, old_level: i32, new_level: i32)
        requires
            old(self).wf(),
            old(self)@.has(pid),
        ensures
            final(self).wf(),
            final(self)@.as_many_players(old(self)@),
            final(self)@ == old(self)@.put(
                pid,
                old(self)@.p(pid).leveled(skill@, old_level, new_level),
            ),
    {
        if new_level > old_level {
            self.players.push_log(pid as usize, level_up_text(skill, new_level));
        } else {
            assert(self@.players.slots =~= self@.players.slots.update(pid as int, self@.p(pid)));
        }
    }

    fn gain(&mut self, pid: u16, item: &str, line: String)
        requires
            old(self).wf(),
            old(self)@.has(pid),
        ensures
            final(self).wf(),
            final(self)@.as_many_players(old(self)@),
            final(self)@ == old(self)@.put(pid, old(self)@.p(pid).got(item@, line@)),
    {
        let i: usize = pid as usize;
        if self.players.add_item(i, item, 1) {
            self.players.push_log(i, line);
        } else {
            assert(self@.p(pid) == old(self)@.p(pid));
            self.players.push_log(i, "Inventory full!".to_owned());
        }
    }


    fn train_woodcutting(&mut self, pid: u16, base: i32)
        requires
            old(self).wf(),
            old(self)@.has(pid),
        ensures
            final(self).wf(),
            final(self)@.as_many_players(old(self)@),
            final(self)@ == old(self)@.put(pid, old(self)@.p(pid).trained_woodcutting(base as int)),
    {
        let i: usize = pid as usize;
        let mut skills: Skills = self.players.skills[i];
        assert(self@.p(pid).ok(self@.w, self@.h, self@.players.slots.len()));
        let before: i32 = skills.woodcutting;
        skills.woodcutting_xp = skills.woodcutting_xp.wrapping_add(xp_with_bonus(base, skills.angel_points));
        skills.woodcutting = level_from_xp(skills.woodcutting_xp);
        let after: i32 = skills.woodcutting;
        self.players.set_skills(i, skills);
        self.log_level_up(pid, "Woodcutting", before, after);
    }

    fn train_mining(&mut self, pid: u16, base: i32)
        requires
            old(self).wf(),
            old(self)@.has(pid),
        ensures
            final(self).wf(),
            final(self)@.as_many_players(old(self)@),
            final(self)@ == old(self)@.put(pid, old(self)@.p(pid).trained_mining(base as int)),
    {
        let i: usize = pid as usize;
        let mut skills: Skills = self.players.skills[i];
        assert(self@.p(pid).ok(self@.w, self@.h, self@.players.slots.len()));
        let before: i32 = skills.mining;
        skills.mining_xp = skills.mining_xp.wrapping_add(xp_with_bonus(base, skills.angel_points));
        skills.mining = level_from_xp(skills.mining_xp);
        let after: i32 = skills.mining;
        self.players.set_skills(i, skills);
        self.log_level_up(pid, "Mining", before, after);
    }

    fn train_fishing(&mut self, pid: u16, base: i32)
        requires
            old(self).wf(),
            old(self)@.has(pid),
        ensures
            final(self).wf(),
            final(self)@.as_many_players(old(self)@),
            final(self)@ == old(self)@.put(pid, old(self)@.p(pid).trained_fishing(base as int)),
    {
        let i: usize = pid as usize;
        let mut skills: Skills = self.players.skills[i];
        assert(self@.p(pid).ok(self@.w, self@.h, self@.players.slots.len()));
        let before: i32 = skills.fishing;
        skills.fishing_xp = skills.fishing_xp.wrapping_add(xp_with_bonus(base, skills.angel_points));
        skills.fishing = level_from_xp(skills.fishing_xp);
        let after: i32 = skills.fishing;
        self.players.set_skills(i, skills);
        self.log_level_up(pid, "Fishing", before, after);
    }

    /// Chops at a tree.
    pub fn do_chop(&mut self, pid: u16, t: (i32, i32))
        requires
            old(self).wf(),
            old(self)@.has(pid),
            best_tool_of(old(self)@.p(pid).inv, "axe"@) is Some ==> old(self)@.has_cell(t.0, t.1),
        ensures
            final(self).wf(),
            final(self)@.as_many_players(old(self)@),
            final(self)@ == old(self)@.chop(pid, t),
    {
        let i: usize = pid as usize;
        assert(self@.p(pid).ok(self@.w, self@.h, self@.players.slots.len()));
        let level: i32 = self.players.skills[i].woodcutting;
        let tool: ToolDef = match best_tool(self.players.inv[i].as_slice(), "axe") {
            Some(tool) => tool,
            None => {
                self.tell(pid, "You need an axe.".to_owned());
                self.rest(pid);
                return;
            },
        };
        proof {
            lemma_has_cell(self@, t.0, t.1);
        }
        let obj: Obj = *self.obj(t.0, t.1);
        if let Obj::Tree { tier, hp } = obj {
            let def: ResourceDef = tree_def(tier);
            if tool.tier < def.req_tool_tier {
                self.tell(
                    pid,
                    join5(
                        "You need a tier ",
                        int_text(def.req_tool_tier as i64).as_str(),
                        " axe for ",
                        def.name,
                        ".",
                    ),
                );
                self.rest(pid);
                return;
            }
            self.events.push(EventRec::Chop { x: t.0 as i16, y: t.1 as i16 });
            if !gather_success(&mut self.rng, level, tier) {
                self.tell(pid, join3("You fail to cut the ", def.name, "."));
                return;
            }
            let dmg: i32 = tool.power + level / 12;
            let left: i32 = hp.wrapping_sub(dmg);
            if left <= 0 {
                let regrow: u64 = self.tick.wrapping_add(def.regrow_secs * TPS);
                self.set_obj(t.0, t.1, Obj::Stump { tier, regrow });
                self.gain(pid, def.item, join3("You get ", item_name(def.item), "."));
                self.train_woodcutting(pid, def.xp);
                self.rest(pid);
            } else {
                self.set_obj(t.0, t.1, Obj::Tree { tier, hp: left });
            }
        } else {
            self.rest(pid);
        }
    }

    /// Mines at a rock.
    pub fn do_mine(&mut self, pid: u16, t: (i32, i32))
        requires
            old(self).wf(),
            old(self)@.has(pid),
            best_tool_of(old(self)@.p(pid).inv, "pickaxe"@) is Some ==> old(self)@.has_cell(t.0, t.1),
        ensures
            final(self).wf(),
            final(self)@.as_many_players(old(self)@),
            final(self)@ == old(self)@.mine(pid, t),
    {
        let i: usize = pid as usize;
        assert(self@.p(pid).ok(self@.w, self@.h, self@.players.slots.len()));
        let level: i32 = self.players.skills[i].mining;
        let tool: ToolDef = match best_tool(self.players.inv[i].as_slice(), "pickaxe") {
            Some(tool) => tool,
            None => {
                self.tell(pid, "You need a pickaxe.".to_owned());
                self.rest(pid);
                return;
            },
        };
        proof {
            lemma_has_cell(self@, t.0, t.1);
        }
        let obj: Obj = *self.obj(t.0, t.1);
        if let Obj::Rock { tier, hp } = obj {
            let def: ResourceDef = rock_def(tier);
            if tool.tier < def.req_tool_tier {
                self.tell(
                    pid,
                    join5(
                        "You need a tier ",
                        int_text(def.req_tool_tier as i64).as_str(),
                        " pickaxe for ",
                        def.name,
                        ".",
                    ),
                );
                self.rest(pid);
                return;
            }
            self.events.push(EventRec::Mine { x: t.0 as i16, y: t.1 as i16 });
            if !gather_success(&mut self.rng, level, tier) {
                self.tell(pid, join3("You fail to mine the ", def.name, "."));
                return;
            }
            let dmg: i32 = tool.power + level / 12;
            let left: i32 = hp.wrapping_sub(dmg);
            if left <= 0 {
                let regrow: u64 = self.tick.wrapping_add(def.regrow_secs * TPS);
                self.set_obj(t.0, t.1, Obj::DepletedRock { tier, regrow });
                self.gain(pid, def.item, join3("You mine ", item_name(def.item), "."));
                self.train_mining(pid, def.xp);
                self.rest(pid);
            } else {
                self.set_obj(t.0, t.1, Obj::Rock { tier, hp: left });
            }
        } else {
            self.rest(pid);
        }
    }

    /// Fishes on a cell.
    pub fn do_fish(&mut self, pid: u16, t: (i32, i32))
        requires
            old(self).wf(),
            old(self)@.has(pid),
            active_rod(
                old(self)@.p(pid).skills.fishing,
                old(self)@.p(pid).inv,
                old(self)@.p(pid).equipment,
            ) is Ok ==> old(self)@.has_cell(t.0, t.1),
        ensures
            final(self).wf(),
            final(self)@.as_many_players(old(self)@),
            final(self)@ == old(self)@.fish(pid, t),
    {
        let i: usize = pid as usize;
        assert(self@.p(pid).ok(self@.w, self@.h, self@.players.slots.len()));
        let level: i32 = self.players.skills[i].fishing;
        let choice: Result<FishDef, String> = choose_active_rod(
            &self.players.skills[i],
            self.players.inv[i].as_slice(),
            &self.players.equipment[i],
        );
        let rod: FishDef = match choice {
            Ok(r) => r,
            Err(msg) => {
                self.tell(pid, msg);
                self.rest(pid);
                return;
            },
        };
        proof {
            lemma_has_cell(self@, t.0, t.1);
        }
        if !matches!(self.tile(t.0, t.1), Tile::Water) {
            self.rest(pid);
            return;
        }
        if level < fish_min_level(rod.tier) {
            self.tell(pid, level_too_low_text(&rod));
            self.rest(pid);
            return;
        }
        self.events.push(EventRec::Fish { x: t.0 as i16, y: t.1 as i16 });
        let (n, d): (u64, u64) = fish_catch_chance(level, rod.tier);
        if !chance_quotient(&mut self.rng, n, d) {
            self.tell(
                pid,
                join3("The ", lowercase(rod.fish_name).as_str(), " slips away."),
            );
            return;
        }
        if !self.players.add_item(i, rod.fish, 1) {
            assert(self@.p(pid) == old(self)@.p(pid));
            assert(self@.players.slots =~= old(self)@.players.slots);
            self.tell(pid, "Inventory full!".to_owned());
            self.rest(pid);
            return;
        }
        self.tell(pid, join3("You catch a ", lowercase(rod.fish_name).as_str(), "."));
        self.train_fishing(pid, rod.xp);
        self.rest(pid);
    }

    /// Picks a berry from a bush.
    pub fn do_pick(&mut self, pid: u16, t: (i32, i32))
        requires
            old(self).wf(),
            old(self)@.has(pid),
            old(self)@.has_cell(t.0, t.1),
        ensures
            final(self).wf(),
            final(self)@.as_many_players(old(self)@),
            final(self)@ == old(self)@.pick(pid, t),
    {
        let i: usize = pid as usize;
        proof {
            lemma_has_cell(self@, t.0, t.1);
        }
        let obj: Obj = *self.obj(t.0, t.1);
        if let Obj::Bush { berries, .. } = obj {
            if berries > 0 {
                let left: i32 = berries - 1;
                let regrow: u64 = self.tick.wrapping_add(8 * TPS);
                self.set_obj(t.0, t.1, Obj::Bush { berries: left, regrow });
                self.events.push(EventRec::Pick { x: t.0 as i16, y: t.1 as i16 });
                if !self.players.add_item(i, "berries", 1) {
                    assert(self@.p(pid) == old(self)@.p(pid));
                    assert(self@.players.slots =~= old(self)@.players.slots);
                    self.tell(pid, "Inventory full!".to_owned());
                    self.rest(pid);
                    return;
                }
                self.tell(pid, "You pick a berry.".to_owned());
                if left == 0 {
                    self.rest(pid);
                }
            } else {
                self.rest(pid);
            }
        } else {
            self.rest(pid);
        }
    }

    /// Picks up what lies on a cell.
    pub fn do_pickup(&mut self, pid: u16, t: (i32, i32))
        requires
            old(self).wf(),
            old(self)@.has(pid),
        ensures
            final(self).wf(),
            final(self)@.as_many_players(old(self)@),
            final(self)@ == old(self)@.pickup(pid, t),
    {
        let i: usize = pid as usize;
        let ids: Vec<u16> = self.stacks_on(t.0, t.1);
        self.rest(pid);
        let ghost s = self@;
        let mut full: bool = false;
        let mut k: usize = 0;
        while k < ids.len()
            invariant
                k <= ids.len(),
                i == pid,
                self.wf(),
                self@.has(pid),
                self@.players.slots.len() == old(self)@.players.slots.len(),
                self@.ground.slots.len() >= s.ground.slots.len(),
                forall|j: int| 0 <= j < ids@.len() ==> (#[trigger] ids@[j]) < s.ground.slots.len(),
                (self@, full) == s.pick_up(pid, ids@, k as int),
            decreases ids.len() - k,
        {
            let h: u16 = ids[k];
            let u: usize = h as usize;
            let ghost now = self@;
            assert(h < self@.ground.slots.len());
            let item: String = self.ground.item[u].clone();
            let qty: i32 = self.ground.qty[u];
            let x: i32 = self.ground.xs[u] as i32;
            let y: i32 = self.ground.ys[u] as i32;
            self.ground.despawn(h);
            let added: bool = if full {
                false
            } else {
                self.players.add_item(i, item.as_str(), qty)
            };
            if added {
                self.players.push_log(i, join3("You pick up ", item_name(item.as_str()), "."));
            } else {
                assert(self@.players.slots =~= now.players.slots);
                full = true;
                self.drop_ground(x, y, item.as_str(), qty);
            }
            k = k + 1;
        }
        if full {
            self.tell(pid, "Inventory full!".to_owned());
        }
    }
}

} // verus!
