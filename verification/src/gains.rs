//! What work brings: chopping, mining, fishing and picking, meals, rest, and what is worn.

use vstd::prelude::*;
use crate::defs::{fish_table, rocks_table, trees_table};
use crate::gather::{gather_chance, gathers, level_lead};
use crate::inventory::{active_rod, added, best_tool_of, fits};
use crate::levels::{bonus_xp, level_of};
use crate::pools::PlayerV;
use crate::rounding::{below_quotient, fraction_of, next_random, single};
use crate::sim::{lemma_cell, SimV};
use crate::types::{Intent, Obj, Skills, Tile, TPS};

verus! {

/// The object on a cell, by its row and column.
pub open spec fn on_cell(s: SimV, t: (i32, i32)) -> Obj {
    s.objects[t.1 * s.w + t.0]
}

/// Whether a player has nothing to do.
pub open spec fn resting(p: PlayerV) -> bool {
    p.intent == Intent::Idle && p.target is None
}

/// Whether a player goes on with what it was doing.
pub open spec fn goes_on(p: PlayerV, q: PlayerV) -> bool {
    q.intent == p.intent && q.target == p.target
}

/// Whether a player has all that it had, and is as good at everything.
pub open spec fn gained_nothing(p: PlayerV, q: PlayerV) -> bool {
    &&& q.inv == p.inv
    &&& q.skills == p.skills
    &&& q.equipment == p.equipment
    &&& q.hp_cur == p.hp_cur
}

/// Whether a player got one of an item where there is room for it, and nothing else.
pub open spec fn got_one(p: PlayerV, q: PlayerV, item: Seq<char>) -> bool {
    &&& q.inv == (if fits(p.inv, item) {
        added(p.inv, item, 1)
    } else {
        p.inv
    })
    &&& q.equipment == p.equipment
    &&& q.hp_cur == p.hp_cur
}

/// Whether only the object on one cell differs.
pub open spec fn only_cell(s: SimV, r: SimV, t: (i32, i32), o: Obj) -> bool {
    &&& r.objects.len() == s.objects.len()
    &&& on_cell(r, t) == o
    &&& forall|k: int|
        0 <= k < s.objects.len() && k != t.1 * s.w + t.0 ==> #[trigger] r.objects[k] == s.objects[k]
}

/// The experience after a gain.
pub open spec fn with_gain(xp: i32, base: int, angel_points: i32) -> i32 {
    xp.wrapping_add(bonus_xp(base, angel_points as int) as i32)
}

/// Chopping needs an axe, a tree, and an axe that is good enough for it. A blow that succeeds
/// takes the power of the axe and a twelfth of the level; a tree that has no hit points left
/// becomes a stump until its time has come, and the player gets a log and trains woodcutting
/// and nothing else.
pub proof fn law_chopping(s: SimV, pid: u16, t: (i32, i32))
    requires
        s.grid_ok(),
        s.has(pid),
        s.in_b(t.0, t.1),
        s.tick < 0xffff_ffff_0000_0000,
    ensures
        ({
            let r = s.chop(pid, t);
            let (p, q) = (s.p(pid), r.p(pid));
            let axe = best_tool_of(p.inv, "axe"@);
            &&& axe is None ==> r.objects == s.objects && gained_nothing(p, q) && resting(q)
                && q.log == p.log.push("You need an axe."@)
            &&& axe is Some && on_cell(s, t) !is Tree ==> r.objects == s.objects && gained_nothing(
                p,
                q,
            ) && resting(q) && r.rng == s.rng
            &&& axe is Some ==> (on_cell(s, t) matches Obj::Tree { tier, hp } ==> (1 <= tier <= 4 ==> {
                let d = trees_table()[tier - 1];
                let blow = axe.unwrap().power + p.skills.woodcutting / 12;
                let luck = gathers(next_random(s.rng), p.skills.woodcutting, tier);
                if axe.unwrap().tier < d.req_tool_tier {
                    r.objects == s.objects && gained_nothing(p, q) && resting(q) && r.rng == s.rng
                } else if !luck {
                    r.objects == s.objects && gained_nothing(p, q) && goes_on(p, q)
                } else if 0 <= blow <= 1000 && 0 <= hp && hp > blow {
                    only_cell(s, r, t, Obj::Tree { tier, hp: (hp - blow) as i32 })
                        && gained_nothing(p, q) && goes_on(p, q)
                } else if 0 <= blow <= 1000 && 0 <= hp {
                    &&& only_cell(
                        s,
                        r,
                        t,
                        Obj::Stump { tier, regrow: (s.tick + d.regrow_secs * TPS) as u64 },
                    )
                    &&& got_one(p, q, d.item@)
                    &&& resting(q)
                    &&& q.skills == (Skills {
                        woodcutting_xp: with_gain(
                            p.skills.woodcutting_xp,
                            d.xp as int,
                            p.skills.angel_points,
                        ),
                        woodcutting: level_of(q.skills.woodcutting_xp),
                        ..p.skills
                    })
                } else {
                    true
                }
            }))
        }),
{
    lemma_cell(s, t.0, t.1);
}

/// Mining needs a pickaxe, a rock, and a pickaxe that is good enough for it. A blow that
/// succeeds takes the power of the pickaxe and a twelfth of the level; a rock that has no hit
/// points left is empty until its time has come, and the player gets an ore and trains mining
/// and nothing else.
pub proof fn law_mining(s: SimV, pid: u16, t: (i32, i32))
    requires
        s.grid_ok(),
        s.has(pid),
        s.in_b(t.0, t.1),
        s.tick < 0xffff_ffff_0000_0000,
    ensures
        ({
            let r = s.mine(pid, t);
            let (p, q) = (s.p(pid), r.p(pid));
            let pick = best_tool_of(p.inv, "pickaxe"@);
            &&& pick is None ==> r.objects == s.objects && gained_nothing(p, q) && resting(q)
                && q.log == p.log.push("You need a pickaxe."@)
            &&& pick is Some && on_cell(s, t) !is Rock ==> r.objects == s.objects && gained_nothing(
                p,
                q,
            ) && resting(q) && r.rng == s.rng
            &&& pick is Some ==> (on_cell(s, t) matches Obj::Rock { tier, hp } ==> (1 <= tier <= 4
                ==> {
                let d = rocks_table()[tier - 1];
                let blow = pick.unwrap().power + p.skills.mining / 12;
                let luck = gathers(next_random(s.rng), p.skills.mining, tier);
                if pick.unwrap().tier < d.req_tool_tier {
                    r.objects == s.objects && gained_nothing(p, q) && resting(q) && r.rng == s.rng
                } else if !luck {
                    r.objects == s.objects && gained_nothing(p, q) && goes_on(p, q)
                } else if 0 <= blow <= 1000 && 0 <= hp && hp > blow {
                    only_cell(s, r, t, Obj::Rock { tier, hp: (hp - blow) as i32 })
                        && gained_nothing(p, q) && goes_on(p, q)
                } else if 0 <= blow <= 1000 && 0 <= hp {
                    &&& only_cell(
                        s,
                        r,
                        t,
                        Obj::DepletedRock { tier, regrow: (s.tick + d.regrow_secs * TPS) as u64 },
                    )
                    &&& got_one(p, q, d.item@)
                    &&& resting(q)
                    &&& q.skills == (Skills {
                        mining_xp: with_gain(
                            p.skills.mining_xp,
                            d.xp as int,
                            p.skills.angel_points,
                        ),
                        mining: level_of(q.skills.mining_xp),
                        ..p.skills
                    })
                } else {
                    true
                }
            }))
        }),
{
    lemma_cell(s, t.0, t.1);
}

/// Fishing needs a rod and water. With a rod that the level allows, a catch brings the fish of
/// the rod and trains fishing and nothing else; without luck the player goes on.
pub proof fn law_fishing(s: SimV, pid: u16, t: (i32, i32))
    requires
        s.grid_ok(),
        s.has(pid),
        s.in_b(t.0, t.1),
        0 <= s.p(pid).skills.fishing <= 99,
    ensures
        ({
            let r = s.fish(pid, t);
            let (p, q) = (s.p(pid), r.p(pid));
            let rod = active_rod(p.skills.fishing, p.inv, p.equipment);
            &&& r.objects == s.objects
            &&& rod is Err ==> gained_nothing(p, q) && resting(q)
            &&& (rod matches Ok(d) ==> (0 <= d.tier <= 3 ==> {
                let n = p.skills.fishing - 10 * d.tier;
                let scale = if d.tier == 0 {
                    100nat
                } else if d.tier == 1 {
                    200
                } else if d.tier == 2 {
                    400
                } else {
                    800
                };
                if s.tiles[t.1 * s.w + t.0] != Tile::Water || p.skills.fishing < 10 * d.tier + 1 {
                    gained_nothing(p, q) && resting(q) && r.rng == s.rng
                } else if !below_quotient(fraction_of(next_random(s.rng)), n as nat, scale) {
                    gained_nothing(p, q) && goes_on(p, q)
                } else if !fits(p.inv, d.fish@) {
                    gained_nothing(p, q) && resting(q)
                } else {
                    &&& got_one(p, q, d.fish@)
                    &&& resting(q)
                    &&& q.skills == (Skills {
                        fishing_xp: with_gain(
                            p.skills.fishing_xp,
                            d.xp as int,
                            p.skills.angel_points,
                        ),
                        fishing: level_of(q.skills.fishing_xp),
                        ..p.skills
                    })
                }
            }))
        }),
{
    lemma_cell(s, t.0, t.1);
    reveal_with_fuel(crate::defs::doubled, 5);
    let p = s.p(pid);
    if let Ok(d) = active_rod(p.skills.fishing, p.inv, p.equipment) {
        if 0 <= d.tier <= 3 && p.skills.fishing >= 10 * d.tier + 1 {
            lemma_small_single(p.skills.fishing - 10 * d.tier);
        }
    }
}

proof fn lemma_small_single(x: int)
    requires
        0 <= x <= 99,
    ensures
        single(x) == x,
{
    vstd::arithmetic::power2::lemma2_to64();
    crate::rounding::law_rounding_keeps_short_numbers(
        x as nat,
        0,
        crate::rounding::SINGLE as nat,
    );
    assert(x as nat * vstd::arithmetic::power2::pow2(0) == x);
}

/// Picking takes one berry from a bush that has some, gives one to the player where there is
/// room, and starts the time of the bush anew. A bush without berries gives none.
pub proof fn law_picking(s: SimV, pid: u16, t: (i32, i32))
    requires
        s.grid_ok(),
        s.has(pid),
        s.in_b(t.0, t.1),
        s.tick < 0xffff_ffff_0000_0000,
    ensures
        ({
            let r = s.pick(pid, t);
            let (p, q) = (s.p(pid), r.p(pid));
            match on_cell(s, t) {
                Obj::Bush { berries, regrow } => if berries > 0 {
                    &&& only_cell(
                        s,
                        r,
                        t,
                        Obj::Bush {
                            berries: (berries - 1) as i32,
                            regrow: (s.tick + 8 * TPS) as u64,
                        },
                    )
                    &&& got_one(p, q, "berries"@)
                    &&& q.skills == p.skills
                    &&& if berries == 1 || !fits(p.inv, "berries"@) {
                        resting(q)
                    } else {
                        goes_on(p, q)
                    }
                } else {
                    r.objects == s.objects && gained_nothing(p, q) && resting(q)
                },
                _ => r.objects == s.objects && gained_nothing(p, q) && resting(q),
            }
        }),
{
    lemma_cell(s, t.0, t.1);
}

/// A row of lemmas about the chance: it never falls.
proof fn lemma_chance_rises(a: int, b: int)
    requires
        a <= b,
    ensures
        gather_chance(a) <= gather_chance(b),
    decreases b - a,
{
    if a < b {
        lemma_chance_rises(a, b - 1);
    }
}

/// Who is better gathers whatever one who is worse gathers, with the same number drawn; and what
/// is gathered of a higher tier is gathered of a lower one.
pub proof fn law_skill_helps_to_gather(r: u64, worse: i32, better: i32, tier: i32, higher: i32)
    requires
        1 <= worse <= better <= 99,
        1 <= tier <= higher <= 4,
    ensures
        gathers(r, worse, higher) ==> gathers(r, better, tier),
        level_lead(worse, tier) == worse - 1 - 8 * (tier - 1),
{
    let (a, b) = (level_lead(worse, higher) as int, level_lead(better, tier) as int);
    assert(a <= b);
    lemma_chance_rises(a, b);
}

/// A player after so many ticks of rest.
pub open spec fn rested(p: PlayerV, ticks: nat) -> PlayerV
    decreases ticks,
{
    if ticks == 0 {
        p
    } else {
        rested(p, (ticks - 1) as nat).recovered()
    }
}

proof fn lemma_rested(p: PlayerV, n: nat)
    requires
        p.regen_ctr < 6 * TPS,
        p.hp_cur <= p.skills.hp <= 108,
        n <= 6 * TPS,
    ensures
        rested(p, n) == (if !p.alive {
            p
        } else if p.regen_ctr + n < 6 * TPS {
            PlayerV { regen_ctr: (p.regen_ctr + n) as u32, ..p }
        } else {
            PlayerV {
                regen_ctr: (p.regen_ctr + n - 6 * TPS) as u32,
                hp_cur: if p.hp_cur < p.skills.hp {
                    (p.hp_cur + 1) as i16
                } else {
                    p.hp_cur
                },
                ..p
            }
        }),
    decreases n,
{
    if n > 0 {
        lemma_rested(p, (n - 1) as nat);
    }
}

/// In six seconds a player that lacks hit points gets back exactly one, one that lacks none gets
/// none, and one that is not there stays as it is.
pub proof fn law_a_hit_point_every_six_seconds(p: PlayerV)
    requires
        p.regen_ctr < 6 * TPS,
        p.hp_cur <= p.skills.hp <= 108,
    ensures
        ({
            let q = rested(p, (6 * TPS) as nat);
            &&& p.alive && p.hp_cur < p.skills.hp ==> q.hp_cur == p.hp_cur + 1
            &&& p.alive && p.hp_cur == p.skills.hp ==> q.hp_cur == p.hp_cur
            &&& !p.alive ==> q == p
            &&& q == (PlayerV { hp_cur: q.hp_cur, regen_ctr: p.regen_ctr, ..p })
        }),
{
    lemma_rested(p, (6 * TPS) as nat);
}

/// What is eaten heals as much as its row says: berries 3 hit points, a fish its own number,
/// but never above the greatest.
pub proof fn law_meals_heal_as_they_say(s: SimV, pid: u16, slot: usize, k: int)
    requires
        s.has(pid),
        slot < 28,
        s.p(pid).inv.len() == 28,
        s.p(pid).inv[slot as int].qty > 0,
        s.p(pid).hp_cur < s.p(pid).skills.hp <= 108,
        0 <= s.p(pid).hp_cur,
        0 <= k < 4,
    ensures
        ({
            let (p, q) = (s.p(pid), s.eat(pid, slot).p(pid));
            let item = p.inv[slot as int].item;
            let healed = |heal: int|
                if p.hp_cur + heal < p.skills.hp {
                    p.hp_cur + heal
                } else {
                    p.skills.hp as int
                };
            &&& item == "berries"@ ==> q.hp_cur == healed(3)
            &&& item == fish_table()[k].fish@ ==> q.hp_cur == healed(fish_table()[k].heal as int)
            &&& item != "berries"@ && (forall|j: int|
                0 <= j < 4 ==> (#[trigger] fish_table()[j]).fish@ != item) ==> gained_nothing(p, q)
        }),
{
    reveal_strlit("berries");
    reveal_strlit("yabby");
    reveal_strlit("trout");
    reveal_strlit("salmon");
    reveal_strlit("anglerfish");
    let t = fish_table();
    let item = s.p(pid).inv[slot as int].item;
    let f = crate::defs::fish_with_fish(item);
    crate::search::lemma_first_at(t, f, 0);
    let n = crate::search::first_at(t, f, 0);
    assert("yabby"@.len() == 5 && "trout"@.len() == 5 && "salmon"@.len() == 6);
    assert("anglerfish"@.len() == 10 && "berries"@.len() == 7);
    assert("yabby"@[0] != "trout"@[0]);
    assert(k == 0 || k == 1 || k == 2 || k == 3);
    assert(n == 0 || n == 1 || n == 2 || n == 3 || n == 4);
    assert(t[0].fish@ == "yabby"@ && t[1].fish@ == "trout"@);
    assert(t[2].fish@ == "salmon"@ && t[3].fish@ == "anglerfish"@);
    if item == t[k].fish@ {
        assert(f(t[k]));
        assert(n <= k);
        assert(f(t[n]));
        assert(n == k);
    }
    if n < 4 {
        assert(f(t[n]));
    }
}

/// Whoever puts on an item that can be worn wears it, at its place and nowhere else; whoever
/// takes off what is worn at a place wears nothing there.
pub proof fn law_wearing(s: SimV, pid: u16, slot: usize, place: Seq<char>)
    requires
        s.has(pid),
        slot < 28,
        s.p(pid).inv.len() == 28,
    ensures
        ({
            let (p, q) = (s.p(pid), s.equip(pid, slot).p(pid));
            let item = p.inv[slot as int].item;
            let at = crate::defs::equip_place(item);
            &&& item.len() > 0 && at is Some ==> q.equipment == p.equipment.with(at.unwrap(), item)
            &&& item.len() == 0 || at is None ==> q == p
        }),
        crate::types::is_equip_slot(place) ==> s.unequip(pid, place).p(pid).equipment
            == s.p(pid).equipment.with(place, Seq::empty()),
        !crate::types::is_equip_slot(place) ==> s.unequip(pid, place) == s,
{
    let e = s.p(pid).equipment;
    if e.at(place).len() == 0 {
        assert(e.at(place) =~= Seq::<char>::empty());
    }
}

} // verus!
