//! What fights do: how hard a blow is, whom a creature goes for, and what becomes of those
//! who fall.

use vstd::prelude::*;
use vstd::arithmetic::power2::{lemma2_to64, pow2};
use crate::combat::{hit_ratio, roll, NOBODY};
use crate::defs::{
    armor_bonus, armor_named, armors_table, law_mob_kind_round_trip, mob_kind, mob_of, mobs_table,
    sword_named, swords_table, tools_table, weapon_bonus, ToolDef,
};
use crate::combat::drops_from;
use crate::footing::{law_next_to, lemma_route_comes_nearer};
use crate::levels::{bonus_xp, level_of};
use crate::path::{law_route_is_walkable, GoalKind, Trip};
use crate::pools::{law_live_ids_are_live, lemma_live_below, MobV, PlayerV};
use crate::rounding::{
    below_quotient, fraction_of, law_rounding_keeps_short_numbers, next_random, single,
};
use crate::search::lemma_first_at;
use crate::sim::{EventRec, SimV};
use crate::types::{closed_ui, EquipV, Intent, Skills, TPS};

verus! {

/// A sword in the right hand adds the damage of its row, anything else adds none.
pub proof fn law_swords_add_damage(e: EquipV, k: int)
    requires
        0 <= k < 4,
    ensures
        e.right_hand == swords_table()[k].item@ ==> weapon_bonus(e) == swords_table()[k].damage,
        (forall|j: int| 0 <= j < 4 ==> (#[trigger] swords_table()[j]).item@ != e.right_hand)
            ==> weapon_bonus(e) == 0,
        swords_table()[k].damage > 0,
        k > 0 ==> swords_table()[k].damage > swords_table()[k - 1].damage,
{
    reveal_strlit("copper_sword");
    reveal_strlit("iron_sword");
    reveal_strlit("gold_sword");
    reveal_strlit("cobalt_sword");
    reveal_with_fuel(crate::defs::doubled, 4);
    let t = swords_table();
    let f = sword_named(e.right_hand);
    lemma_first_at(t, f, 0);
    assert(k == 0 || k == 1 || k == 2 || k == 3);
    assert("copper_sword"@[1] != "iron_sword"@[1]);
    assert("copper_sword"@[2] != "cobalt_sword"@[2]);
    assert("iron_sword"@[0] != "gold_sword"@[0]);
    assert(t[0].item@ == "copper_sword"@ && t[1].item@ == "iron_sword"@);
    assert(t[2].item@ == "gold_sword"@ && t[3].item@ == "cobalt_sword"@);
    if e.right_hand == t[k].item@ {
        assert(f(t[k]));
        let n = crate::search::first_at(t, f, 0);
        assert(n <= k);
        assert(f(t[n]));
        assert(n == 0 || n == 1 || n == 2 || n == 3);
    }
}

/// What one worn item adds to the defence: the row of a piece of armour, nothing for anything
/// else.
pub open spec fn adds(item: Seq<char>, d: int) -> bool {
    if exists|k: int| 0 <= k < 16 && (#[trigger] armors_table()[k]).item@ == item {
        exists|k: int|
            0 <= k < 16 && (#[trigger] armors_table()[k]).item@ == item && d
                == armors_table()[k].defence
    } else {
        d == 0
    }
}

proof fn lemma_adds(item: Seq<char>)
    ensures
        adds(item, crate::defs::defence_of(item)),
{
    let t = armors_table();
    let f = armor_named(item);
    lemma_first_at(t, f, 0);
    let n = crate::search::first_at(t, f, 0);
    if n < 16 {
        assert(f(t[n]));
        assert(t[n].item@ == item);
        if item.len() == 0 {
            lemma_armour_named(n);
        }
    } else {
        assert forall|k: int| 0 <= k < 16 implies (#[trigger] t[k]).item@ != item by {
            assert(!f(t[k]));
        }
    }
}

proof fn lemma_armour_named(k: int)
    requires
        0 <= k < 16,
    ensures
        armors_table()[k].item@.len() > 0,
{
    reveal_strlit("copper_helm");
    reveal_strlit("copper_plate");
    reveal_strlit("copper_greaves");
    reveal_strlit("copper_shield");
    reveal_strlit("iron_helm");
    reveal_strlit("iron_plate");
    reveal_strlit("iron_greaves");
    reveal_strlit("iron_shield");
    reveal_strlit("gold_helm");
    reveal_strlit("gold_plate");
    reveal_strlit("gold_greaves");
    reveal_strlit("gold_shield");
    reveal_strlit("cobalt_helm");
    reveal_strlit("cobalt_plate");
    reveal_strlit("cobalt_greaves");
    reveal_strlit("cobalt_shield");
    assert(k == 0 || k == 1 || k == 2 || k == 3 || k == 4 || k == 5 || k == 6 || k == 7 || k == 8
        || k == 9 || k == 10 || k == 11 || k == 12 || k == 13 || k == 14 || k == 15);
}

/// The defence of what is worn is the sum of what each of the five places adds.
pub proof fn law_armour_adds_up(e: EquipV)
    ensures
        exists|a: int, b: int, c: int, d: int, f: int|
            #![trigger adds(e.helmet, a), adds(e.chest, b), adds(e.legs, c), adds(e.left_hand, d), adds(e.right_hand, f)]
            adds(e.helmet, a) && adds(e.chest, b) && adds(e.legs, c) && adds(e.left_hand, d)
                && adds(e.right_hand, f) && armor_bonus(e) == a + b + c + d + f,
{
    lemma_adds(e.helmet);
    lemma_adds(e.chest);
    lemma_adds(e.legs);
    lemma_adds(e.left_hand);
    lemma_adds(e.right_hand);
}

proof fn lemma_single(x: int)
    requires
        0 <= x < 0x100_0000,
    ensures
        single(x) == x,
{
    lemma2_to64();
    law_rounding_keeps_short_numbers(x as nat, 0, crate::rounding::SINGLE as nat);
    assert(x as nat * pow2(0) == x);
}

/// The damage of a blow: it lands with the chance of `atk + 8` in `atk + def + 16` by the first
/// number drawn, and then does 1 and the second number drawn modulo one more than a quarter
/// of the strength.
pub open spec fn damage(rng: u64, atk: int, def: int, strength: int) -> int {
    let first = next_random(rng);
    if below_quotient(fraction_of(first), (atk + 8) as nat, (atk + def + 16) as nat) {
        1 + next_random(first) as int % (1 + strength / 4)
    } else {
        0
    }
}

proof fn lemma_damage(rng: u64, atk: int, def: int, strength: int)
    requires
        0 <= atk <= 1000,
        0 <= def <= 1000,
        0 <= strength <= 1000,
    ensures
        roll(rng, atk, def, strength).0 == damage(rng, atk, def, strength),
        0 <= damage(rng, atk, def, strength) <= 1 + strength / 4,
        damage(rng, atk, def, strength) == 0 ==> roll(rng, atk, def, strength).1 == next_random(
            rng,
        ),
        damage(rng, atk, def, strength) > 0 ==> roll(rng, atk, def, strength).1 == next_random(
            next_random(rng),
        ),
{
    reveal(roll);
    lemma_single(atk);
    lemma_single(def);
    lemma_single(atk + 8);
    lemma_single(atk + def);
    lemma_single(atk + def + 16);
    assert(hit_ratio(atk, def) == (atk + 8, atk + def + 16));
    let q = next_random(next_random(rng)) as int;
    let n = 1 + strength / 4;
    assert(0 <= q % n < n) by (nonlinear_arith)
        requires
            n > 0,
            q >= 0,
    ;
}

/// What is left of hit points after a blow.
pub open spec fn left_of(hp: i16, dmg: int) -> int {
    if hp > dmg {
        hp - dmg
    } else {
        0
    }
}

/// A player's blow at a creature does the damage of its attack and strength levels, each with
/// the damage of the sword in hand, against the creature's defence. The creature loses that
/// much, everybody is shown it, and the player trains attack by 8 and four times the damage,
/// strength by four times the damage, and nothing else.
pub proof fn law_players_blow(s: SimV, pid: u16, mid: u16)
    requires
        s.wf(),
        s.has(pid),
        mid < s.mobs.slots.len(),
        s.m(mid).alive,
    ensures
        ({
            let (p, m) = (s.p(pid), s.m(mid));
            let w = weapon_bonus(p.equipment) as int;
            let dmg = damage(s.rng, p.skills.attack + w, m.defence as int, p.skills.strength + w);
            let t = s.attack(pid, mid);
            let (q, n) = (t.p(pid), t.m(mid));
            &&& n.hp_cur == left_of(m.hp_cur, dmg)
            &&& (n.alive, n.x, n.y, n.hp_max) == (true, m.x, m.y, m.hp_max)
            &&& t.events == s.events.push(
                if dmg == 0 {
                    EventRec::MissMob { x: m.x, y: m.y }
                } else {
                    EventRec::HitMob { x: m.x, y: m.y, dmg: dmg as i16 }
                },
            )
            &&& q.skills.attack_xp == p.skills.attack_xp.wrapping_add(
                bonus_xp(8 + 4 * dmg, p.skills.angel_points as int) as i32,
            )
            &&& q.skills.strength_xp == p.skills.strength_xp.wrapping_add(
                bonus_xp(4 * dmg, p.skills.angel_points as int) as i32,
            )
            &&& q.skills == (Skills {
                attack_xp: q.skills.attack_xp,
                attack: level_of(q.skills.attack_xp),
                strength_xp: q.skills.strength_xp,
                strength: level_of(q.skills.strength_xp),
                ..p.skills
            })
            &&& (q.hp_cur, q.x, q.y) == (p.hp_cur, p.x, p.y)
            &&& (q.inv, q.equipment) == (p.inv, p.equipment)
            &&& n.hp_cur > 0 ==> {
                &&& n.respawn_at == m.respawn_at
                &&& t.ground == s.ground
                &&& (q.intent, q.target) == (p.intent, p.target)
            }
            &&& n.hp_cur == 0 ==> {
                &&& n.respawn_at == s.tick.wrapping_add((20 * TPS) as u64)
                &&& (q.intent, q.target) == (Intent::Idle, None::<(i32, i32)>)
            }
        }),
{
    let (p, m) = (s.p(pid), s.m(mid));
    assert(p.ok(s.w, s.h, s.players.slots.len()));
    assert(m.ok());
    lemma_weapon_bounds(p.equipment);
    let w = weapon_bonus(p.equipment) as int;
    let (a, st) = (p.skills.attack + w, p.skills.strength + w);
    lemma_damage(s.rng, a, m.defence as int, st);
    let u = before_fall(s, pid, mid);
    lemma_slain(u, pid, mid);
}

/// The world after a player's blow, whether or not the creature falls by it.
spec fn before_fall(s: SimV, pid: u16, mid: u16) -> SimV {
    let (p, m) = (s.p(pid), s.m(mid));
    let w = weapon_bonus(p.equipment);
    let (dmg, rng) = roll(s.rng, p.skills.attack + w, m.defence as int, p.skills.strength + w);
    let kind = mob_kind(m.kind_id);
    SimV { rng, ..s }.put_mob(mid, MobV { hp_cur: left_of(m.hp_cur, dmg) as i16, ..m }).event(
        if dmg == 0 {
            EventRec::MissMob { x: m.x, y: m.y }
        } else {
            EventRec::HitMob { x: m.x, y: m.y, dmg: dmg as i16 }
        },
    ).put(
        pid,
        p.said(
            if dmg == 0 {
                "You miss the "@ + kind + "."@
            } else {
                "You hit the "@ + kind + " for "@ + crate::text::decimal(dmg) + "."@
            },
        ).trained_by_blow(dmg),
    )
}

proof fn lemma_weapon_bounds(e: EquipV)
    ensures
        0 <= weapon_bonus(e) <= 80,
{
    let t = swords_table();
    let f = sword_named(e.right_hand);
    reveal_with_fuel(crate::defs::doubled, 4);
    lemma_first_at(t, f, 0);
    let n = crate::search::first_at(t, f, 0);
    assert(n == 4 || n == 0 || n == 1 || n == 2 || n == 3);
}

/// What a fall leaves as it is, and when the creature rises again.
spec fn slain_well(u: SimV, pid: u16, mid: u16) -> bool {
    let t = u.slain(pid, mid);
    let (p, q) = (u.p(pid), t.p(pid));
    let (m, n) = (u.m(mid), t.m(mid));
    &&& n == (MobV { respawn_at: u.tick.wrapping_add((20 * TPS) as u64), ..m })
    &&& t.events == u.events
    &&& q == (PlayerV { log: q.log, intent: Intent::Idle, target: None, ..p })
}

proof fn lemma_spilled(
    s: SimV,
    pid: u16,
    kind: Seq<char>,
    x: i32,
    y: i32,
    drops: Seq<ToolDef>,
    n: int,
)
    requires
        s.has(pid),
    ensures
        ({
            let t = s.spilled(pid, kind, x, y, drops, n);
            &&& t.has(pid)
            &&& t.mobs == s.mobs
            &&& t.events == s.events
            &&& t.p(pid) == (PlayerV { log: t.p(pid).log, ..s.p(pid) })
        }),
    decreases n,
{
    if n > 0 {
        lemma_spilled(s, pid, kind, x, y, drops, n - 1);
    }
}

proof fn lemma_slain(s: SimV, pid: u16, mid: u16)
    requires
        s.has(pid),
        mid < s.mobs.slots.len(),
    ensures
        slain_well(s, pid, mid),
{
    let m = s.m(mid);
    let kind = mob_kind(m.kind_id);
    let def = mob_of(kind);
    let (drops, rng) = drops_from(s.rng, def.tier as int, 0);
    let t = SimV {
        rng,
        ..s.put(pid, s.p(pid).said("You kill the "@ + kind + "!"@).idle())
    }.put_mob(mid, MobV { respawn_at: s.tick.wrapping_add((20 * TPS) as u64), ..m }).dropped(
        m.x as i32,
        m.y as i32,
        "coins"@,
        def.coin,
    );
    lemma_spilled(t, pid, kind, m.x as i32, m.y as i32, drops, drops.len() as int);
}

/// How many steps along the axes lie between a player and a creature.
pub open spec fn apart(p: PlayerV, m: MobV) -> int {
    (if p.x >= m.x {
        p.x - m.x
    } else {
        m.x - p.x
    }) + (if p.y >= m.y {
        p.y - m.y
    } else {
        m.y - p.y
    })
}

/// Whether a creature goes for a player: the player is there and within the creature's reach,
/// and no player that is there is nearer.
pub open spec fn goes_for(s: SimV, mid: u16, pid: u16) -> bool {
    let m = s.mobs.slots[mid as int];
    &&& pid < s.players.slots.len()
    &&& s.players.slots[pid as int].alive
    &&& apart(s.players.slots[pid as int], m) <= mobs_table()[m.kind_id as int].aggro
    &&& forall|k: int|
        0 <= k < s.players.slots.len() && (#[trigger] s.players.slots[k]).alive ==> apart(
            s.players.slots[pid as int],
            m,
        ) <= apart(s.players.slots[k], m)
}

/// Whether no player that is there is within a creature's reach.
pub open spec fn nobody_near(s: SimV, mid: u16) -> bool {
    let m = s.mobs.slots[mid as int];
    forall|k: int|
        0 <= k < s.players.slots.len() && (#[trigger] s.players.slots[k]).alive ==> apart(
            s.players.slots[k],
            m,
        ) > mobs_table()[m.kind_id as int].aggro
}

proof fn lemma_apart(s: SimV, pid: u16, mid: u16)
    ensures
        s.away(pid, mid) == apart(s.p(pid), s.m(mid)),
{
}

proof fn lemma_prey(s: SimV, mid: u16, n: int)
    requires
        0 <= n <= s.players.live().len(),
        s.m(mid).kind_id < 4,
    ensures
        ({
            let ids = s.players.live();
            let reach = mobs_table()[s.m(mid).kind_id as int].aggro;
            match s.prey(mid, n) {
                Some(q) => (exists|j: int| 0 <= j < n && #[trigger] ids[j] == q) && apart(
                    s.p(q),
                    s.m(mid),
                ) <= reach && forall|j: int|
                    0 <= j < n ==> apart(s.p(q), s.m(mid)) <= apart(
                        s.p(#[trigger] ids[j]),
                        s.m(mid),
                    ),
                None => forall|j: int|
                    0 <= j < n ==> apart(s.p(#[trigger] ids[j]), s.m(mid)) > reach,
            }
        }),
    decreases n,
{
    if n > 0 {
        lemma_prey(s, mid, n - 1);
        law_mob_kind_round_trip(s.m(mid).kind_id);
        let ids = s.players.live();
        let best = s.prey(mid, n - 1);
        lemma_apart(s, ids[n - 1], mid);
        if let Some(b) = best {
            lemma_apart(s, b, mid);
            let j = choose|j: int| 0 <= j < n - 1 && #[trigger] ids[j] == b;
            assert(ids[j] == b);
        }
        assert(s.prey(mid, n) == Some(ids[n - 1]) || s.prey(mid, n) == best);
    }
}

/// A creature goes for the nearest of the players within its reach; with nobody there it goes
/// for nobody.
pub proof fn law_creatures_go_for_the_nearest(s: SimV, mid: u16)
    requires
        s.wf(),
        mid < s.mobs.slots.len(),
        s.players.slots.len() <= 0x1_0000,
    ensures
        match s.prey(mid, s.players.live().len() as int) {
            Some(q) => goes_for(s, mid, q),
            None => nobody_near(s, mid),
        },
{
    assert(s.m(mid).ok());
    let ids = s.players.live();
    let alive = s.players.alive();
    let n = s.players.slots.len() as int;
    lemma_prey(s, mid, ids.len() as int);
    law_live_ids_are_live(alive, n);
    lemma_live_below(alive, n);
    assert forall|k: int| 0 <= k < n && (#[trigger] s.players.slots[k]).alive implies exists|j: int|
        0 <= j < ids.len() && #[trigger] ids[j] == k by {
        assert(alive[k]);
        assert(ids.contains(k as u16));
        let j = choose|j: int| 0 <= j < ids.len() && ids[j] == k as u16;
        assert(ids[j] == k);
    }
    if let Some(q) = s.prey(mid, ids.len() as int) {
        let j = choose|j: int| 0 <= j < ids.len() && #[trigger] ids[j] == q;
        assert(alive[ids[j] as int]);
        assert forall|k: int| 0 <= k < n && (#[trigger] s.players.slots[k]).alive implies apart(
            s.p(q),
            s.m(mid),
        ) <= apart(s.players.slots[k], s.m(mid)) by {
            let i = choose|i: int| 0 <= i < ids.len() && #[trigger] ids[i] == k;
            assert(s.p(ids[i]) == s.players.slots[k]);
        }
    } else {
        assert forall|k: int| 0 <= k < n && (#[trigger] s.players.slots[k]).alive implies apart(
            s.players.slots[k],
            s.m(mid),
        ) > mobs_table()[s.m(mid).kind_id as int].aggro by {
            let i = choose|i: int| 0 <= i < ids.len() && #[trigger] ids[i] == k;
            assert(s.p(ids[i]) == s.players.slots[k]);
        }
    }
}

/// How a player is after the blow of a creature: a miss trains its defence, a hit its hit
/// points by the damage. Left without hit points it wakes up at the start with all of them,
/// all windows closed and nothing to do; else it turns on the creature if it has nothing to do.
/// It keeps its things.
pub open spec fn wounded(s: SimV, mid: u16, pid: u16, q: PlayerV) -> bool {
    let (p, m) = (s.players.slots[pid as int], s.mobs.slots[mid as int]);
    let dmg = damage(
        s.rng,
        m.attack as int,
        p.skills.defence + armor_bonus(p.equipment),
        m.strength as int,
    );
    &&& (q.alive, q.uuid, q.name) == (p.alive, p.uuid, p.name)
    &&& (q.inv, q.equipment) == (p.inv, p.equipment)
    &&& dmg == 0 ==> q.skills == (Skills {
        defence_xp: p.skills.defence_xp.wrapping_add(
            bonus_xp(8, p.skills.angel_points as int) as i32,
        ),
        defence: level_of(q.skills.defence_xp),
        ..p.skills
    })
    &&& dmg > 0 ==> q.skills == (Skills {
        hp_xp: p.skills.hp_xp.wrapping_add(bonus_xp(dmg, p.skills.angel_points as int) as i32),
        hp: (level_of(q.skills.hp_xp) + 9) as i32,
        ..p.skills
    })
    &&& left_of(p.hp_cur, dmg) > 0 ==> {
        &&& q.hp_cur == left_of(p.hp_cur, dmg)
        &&& (q.x, q.y) == (p.x, p.y)
        &&& q.ui == p.ui
        &&& if p.intent == Intent::Idle {
            q.intent == (Intent::Attack { mid: mid as u32 }) && q.target == Some(
                (m.x as i32, m.y as i32),
            )
        } else {
            q.intent == p.intent && q.target == p.target
        }
    }
    &&& left_of(p.hp_cur, dmg) == 0 ==> {
        &&& q.hp_cur == q.skills.hp
        &&& (q.x, q.y) == (s.player_spawn.0 as i16, s.player_spawn.1 as i16)
        &&& q.ui == closed_ui()
        &&& q.intent == Intent::Idle
        &&& q.target is None
    }
}

proof fn lemma_wounded(s: SimV, mid: u16, pid: u16)
    requires
        s.wf(),
        s.has(pid),
        mid < s.mobs.slots.len(),
    ensures
        wounded(s, mid, pid, s.mob_strike(mid, pid).p(pid)),
        ({
            let (p, m) = (s.p(pid), s.m(mid));
            let dmg = damage(
                s.rng,
                m.attack as int,
                p.skills.defence + armor_bonus(p.equipment),
                m.strength as int,
            );
            s.mob_strike(mid, pid).events == s.events.push(
                if dmg == 0 {
                    EventRec::MissPlayer { x: p.x, y: p.y }
                } else {
                    EventRec::HitPlayer { x: p.x, y: p.y, dmg: dmg as i16 }
                },
            )
        }),
{
    reveal(PlayerV::struck);
    let (p, m) = (s.p(pid), s.m(mid));
    assert(p.ok(s.w, s.h, s.players.slots.len()));
    assert(m.ok());
    lemma_armor_bounds(p.equipment);
    lemma_damage(
        s.rng,
        m.attack as int,
        p.skills.defence + armor_bonus(p.equipment),
        m.strength as int,
    );
    let dmg = damage(
        s.rng,
        m.attack as int,
        p.skills.defence + armor_bonus(p.equipment),
        m.strength as int,
    );
    if dmg > 0 {
        let xp = p.skills.hp_xp.wrapping_add(bonus_xp(dmg, p.skills.angel_points as int) as i32);
        crate::levels::law_level_brackets_xp(xp);
    }
}

proof fn lemma_defence_bounds(item: Seq<char>)
    ensures
        0 <= crate::defs::defence_of(item) <= 80,
{
    reveal_with_fuel(crate::defs::doubled, 4);
    let t = armors_table();
    let f = armor_named(item);
    lemma_first_at(t, f, 0);
    let k = crate::search::first_at(t, f, 0);
    assert(k == 16 || k == 0 || k == 1 || k == 2 || k == 3 || k == 4 || k == 5 || k == 6 || k == 7
        || k == 8 || k == 9 || k == 10 || k == 11 || k == 12 || k == 13 || k == 14 || k == 15);
}

proof fn lemma_armor_bounds(e: EquipV)
    ensures
        0 <= armor_bonus(e) <= 400,
{
    lemma_defence_bounds(e.helmet);
    lemma_defence_bounds(e.chest);
    lemma_defence_bounds(e.legs);
    lemma_defence_bounds(e.left_hand);
    lemma_defence_bounds(e.right_hand);
}

/// A creature that is up and has nobody within its reach does nothing. Else it strikes the
/// nearest player there if it stands next to it, and comes nearer to it if not, as long as any
/// way leads there.
pub proof fn law_creatures_turn(s: SimV, mid: u16, walk: Seq<int>)
    requires
        s.wf(),
        s.players.slots.len() <= 0x1_0000,
        s.w <= 0x8000,
        s.h <= 0x8000,
        mid < s.mobs.slots.len(),
        s.m(mid).alive,
        s.m(mid).respawn_at == 0,
    ensures
        nobody_near(s, mid) ==> s.mob_turn(mid) == s,
        !nobody_near(s, mid) ==> exists|pid: u16| #[trigger]
            goes_for(s, mid, pid) && hunts(s, mid, pid, walk, s.mob_turn(mid)),
{
    law_creatures_go_for_the_nearest(s, mid);
    match s.prey(mid, s.players.live().len() as int) {
        None => {},
        Some(pid) => {
            assert(goes_for(s, mid, pid));
            assert(!nobody_near(s, mid)) by {
                assert(s.players.slots[pid as int].alive);
            }
            lemma_hunts(s, mid, pid, walk);
        },
    }
}

/// What a creature does about a player.
pub open spec fn hunts(s: SimV, mid: u16, pid: u16, walk: Seq<int>, t: SimV) -> bool {
    let (p, m) = (s.players.slots[pid as int], s.mobs.slots[mid as int]);
    let n = t.mobs.slots[mid as int];
    let trip = Trip {
        s,
        from: (m.x as i32, m.y as i32),
        goal: GoalKind::Adjacent((p.x as i32, p.y as i32)),
        ignore_pid: -1i32,
    };
    if (p.x, p.y) != (m.x, m.y) && -1 <= p.x - m.x <= 1 && -1 <= p.y - m.y <= 1 {
        &&& wounded(s, mid, pid, t.players.slots[pid as int])
        &&& t.mobs == s.mobs
        &&& t.events.len() == s.events.len() + 1
    } else {
        &&& t.players == s.players
        &&& t.events == s.events
        &&& (n.hp_cur, n.respawn_at) == (m.hp_cur, m.respawn_at)
        &&& trip.arrives(walk) ==> exists|v: Seq<int>| #[trigger]
            (Trip { from: (n.x as i32, n.y as i32), ..trip }).arrives(v) && v.len() < walk.len()
    }
}

proof fn lemma_hunts(s: SimV, mid: u16, pid: u16, walk: Seq<int>)
    requires
        s.wf(),
        s.w <= 0x8000,
        s.h <= 0x8000,
        mid < s.mobs.slots.len(),
        s.m(mid).alive,
        s.m(mid).respawn_at == 0,
        s.has(pid),
        s.prey(mid, s.players.live().len() as int) == Some(pid),
    ensures
        hunts(s, mid, pid, walk, s.mob_turn(mid)),
{
    let (p, m) = (s.p(pid), s.m(mid));
    let (a, b) = ((m.x as i32, m.y as i32), (p.x as i32, p.y as i32));
    law_next_to(a, b);
    let trip = Trip { s, from: a, goal: GoalKind::Adjacent(b), ignore_pid: -1i32 };
    assert(NOBODY == -1);
    if crate::sim::chebyshev_of(a, b) == 1 {
        lemma_wounded(s, mid, pid);
    } else if trip.arrives(walk) {
        lemma_route_comes_nearer(trip, walk);
        law_route_is_walkable(trip, 0);
        let c = trip.route().unwrap()[0];
        assert(s.in_b(c.0, c.1));
        let u = Trip { from: c, ..trip };
        let v = choose|v: Seq<int>| #[trigger] u.arrives(v) && v.len() < walk.len();
        assert((Trip { from: (c.0 as i16 as i32, c.1 as i16 as i32), ..trip }).arrives(v));
    }
}

/// A creature that has fallen lies until its time has come. Then it stands at home again, with
/// all its hit points.
pub proof fn law_the_fallen_rise(s: SimV, mid: u16)
    requires
        mid < s.mobs.slots.len(),
        s.m(mid).alive,
        s.m(mid).respawn_at != 0,
    ensures
        s.tick < s.m(mid).respawn_at ==> s.mob_turn(mid) == s,
        s.tick >= s.m(mid).respawn_at ==> {
            let (m, n) = (s.m(mid), s.mob_turn(mid).m(mid));
            &&& (n.x, n.y) == m.home
            &&& n.hp_cur == m.hp_max
            &&& n.respawn_at == 0
            &&& n.alive
            &&& (n.kind_id, n.hp_max, n.home) == (m.kind_id, m.hp_max, m.home)
            &&& (n.attack, n.strength, n.defence) == (m.attack, m.strength, m.defence)
            &&& s.mob_turn(mid).players == s.players
        },
{
}

/// A creature drops, besides coins, only tools of its own tier, and none twice.
pub proof fn law_drops_are_of_the_tier(rng: u64, tier: int, k: int)
    requires
        0 <= k <= 8,
    ensures
        ({
            let drops = drops_from(rng, tier, k).0;
            &&& forall|j: int| 0 <= j < drops.len() ==> (#[trigger] drops[j]).tier == tier
            &&& drops.len() <= 8 - k
            &&& forall|j: int|
                0 <= j < drops.len() ==> exists|i: int|
                    k <= i < 8 && #[trigger] tools_table()[i] == (#[trigger] drops[j])
        }),
    decreases 8 - k,
{
    if k < 8 {
        let t = tools_table()[k];
        let r = next_random(rng);
        law_drops_are_of_the_tier(rng, tier, k + 1);
        law_drops_are_of_the_tier(r, tier, k + 1);
        let rest = drops_from(r, tier, k + 1).0;
        let drops = drops_from(rng, tier, k).0;
        assert forall|j: int| 0 <= j < drops.len() implies exists|i: int|
            k <= i < 8 && #[trigger] tools_table()[i] == (#[trigger] drops[j]) by {
            if t.tier == tier && drops.len() == rest.len() + 1 {
                if j == 0 {
                    assert(tools_table()[k] == drops[0]);
                } else {
                    assert(drops[j] == rest[j - 1]);
                }
            }
        }
    }
}

} // verus!
