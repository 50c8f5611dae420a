//! What players do when they have come where they were going, and what everybody sees of it.

use vstd::prelude::*;
use crate::defs::{min_level, rocks_table, trees_table};
use crate::footing::law_next_to;
use crate::gains::{on_cell, resting};
use crate::inventory::{active_rod, best_tool_of, fits};
use crate::pools::PlayerV;
use crate::sim::{lemma_cell, EventRec, SimV};
use crate::text::decimal;
use crate::types::{Intent, Obj, Tile};

verus! {

/// Whether two cells touch, at a side or at a corner.
pub open spec fn touching(x: int, y: int, t: (i32, i32)) -> bool {
    &&& (x, y) != (t.0 as int, t.1 as int)
    &&& -1 <= x - t.0 <= 1
    &&& -1 <= y - t.1 <= 1
}

/// A player beside the cell that it is bound for does there what it came for.
pub proof fn law_work_is_done_from_beside(s: SimV, pid: u16, t: (i32, i32))
    requires
        s.has(pid),
        s.p(pid).alive,
        s.p(pid).target == Some(t),
        -0x8000 <= t.0 < 0x8000,
        -0x8000 <= t.1 < 0x8000,
        touching(s.p(pid).x as int, s.p(pid).y as int, t),
    ensures
        s.p(pid).intent == Intent::Chop ==> s.player_turn(pid) == s.chop(pid, t),
        s.p(pid).intent == Intent::Mine ==> s.player_turn(pid) == s.mine(pid, t),
        s.p(pid).intent == Intent::Pick ==> s.player_turn(pid) == s.pick(pid, t),
        s.p(pid).intent == Intent::Fish ==> s.player_turn(pid) == s.fish(pid, t),
{
    law_next_to((s.p(pid).x as i32, s.p(pid).y as i32), t);
}

/// A player that stands on the cell where things lie picks them up.
pub proof fn law_things_are_picked_up_from_above(s: SimV, pid: u16)
    requires
        s.has(pid),
        s.p(pid).alive,
        s.p(pid).intent == Intent::Pickup,
        s.p(pid).target == Some((s.p(pid).x as i32, s.p(pid).y as i32)),
    ensures
        s.player_turn(pid) == s.pickup(pid, (s.p(pid).x as i32, s.p(pid).y as i32)),
{
}

/// A player beside the creature that it goes for strikes it, wherever the creature has got to; one
/// whose creature is down has nothing more to do.
pub proof fn law_creatures_are_followed(s: SimV, pid: u16, mid: u16)
    requires
        s.has(pid),
        s.p(pid).alive,
        s.p(pid).intent == (Intent::Attack { mid: mid as u32 }),
    ensures
        mid < s.mobs.slots.len() && s.m(mid).alive && s.m(mid).respawn_at == 0 && touching(
            s.p(pid).x as int,
            s.p(pid).y as int,
            (s.m(mid).x as i32, s.m(mid).y as i32),
        ) ==> s.player_turn(pid) == s.attack(pid, mid),
        mid < s.mobs.slots.len() && (!s.m(mid).alive || s.m(mid).respawn_at != 0) ==> resting(
            s.player_turn(pid).p(pid),
        ) && s.player_turn(pid).mobs == s.mobs,
{
    if mid < s.mobs.slots.len() {
        law_next_to(
            (s.p(pid).x as i32, s.p(pid).y as i32),
            (s.m(mid).x as i32, s.m(mid).y as i32),
        );
    }
}

/// A player beside the one that it wants to trade with asks it, wherever that one has got to, and
/// then has nothing more to do; so has one whose partner is gone.
pub proof fn law_partners_are_followed(s: SimV, pid: u16, other: u16)
    requires
        s.has(pid),
        s.p(pid).alive,
        s.p(pid).intent == (Intent::Trade { pid: other as u32 }),
        other < s.players.slots.len(),
    ensures
        s.p(other).alive && touching(
            s.p(pid).x as int,
            s.p(pid).y as int,
            (s.p(other).x as i32, s.p(other).y as i32),
        ) ==> s.player_turn(pid) == s.request_trade(pid, other).rest(pid),
        !s.p(other).alive ==> resting(s.player_turn(pid).p(pid)) && s.player_turn(pid).p(pid).log
            == s.p(pid).log.push("They are no longer here."@),
{
    law_next_to(
        (s.p(pid).x as i32, s.p(pid).y as i32),
        (s.p(other).x as i32, s.p(other).y as i32),
    );
}

/// A player that talks to somebody gets that one's window, with all others closed, and has nothing
/// more to do.
pub proof fn law_talking(s: SimV, pid: u16, t: (i32, i32))
    requires
        s.grid_ok(),
        s.has(pid),
        s.p(pid).alive,
        s.p(pid).intent == Intent::Talk,
        s.p(pid).target == Some(t),
        s.in_b(t.0, t.1),
        s.w <= 0x8000,
        s.h <= 0x8000,
        touching(s.p(pid).x as int, s.p(pid).y as int, t),
    ensures
        ({
            let r = s.player_turn(pid);
            let (ui, o) = (r.p(pid).ui, on_cell(s, t));
            &&& ui.trade_open <==> o == Obj::Trader
            &&& ui.forge_open <==> o == Obj::Blacksmith
            &&& ui.angler_open <==> o == Obj::Angler
            &&& ui.angel_modal_open <==> o == Obj::Angel
            &&& resting(r.p(pid))
            &&& r.objects == s.objects && r.p(pid).inv == s.p(pid).inv
        }),
{
    lemma_cell(s, t.0, t.1);
    law_next_to((s.p(pid).x as i32, s.p(pid).y as i32), t);
}

/// Everybody sees a blow at a tree or a rock, whether or not it succeeds, and nothing where there
/// is none.
pub proof fn law_blows_are_seen(s: SimV, pid: u16, t: (i32, i32))
    requires
        s.grid_ok(),
        s.has(pid),
        s.in_b(t.0, t.1),
    ensures
        s.chop(pid, t).events == (match (best_tool_of(s.p(pid).inv, "axe"@), on_cell(s, t)) {
            (Some(axe), Obj::Tree { tier, hp }) => if 1 <= tier <= 4 && axe.tier
                < trees_table()[tier - 1].req_tool_tier {
                s.events
            } else if 1 <= tier <= 4 {
                s.events.push(EventRec::Chop { x: t.0 as i16, y: t.1 as i16 })
            } else {
                s.chop(pid, t).events
            },
            _ => s.events,
        }),
        s.mine(pid, t).events == (match (best_tool_of(s.p(pid).inv, "pickaxe"@), on_cell(s, t)) {
            (Some(pick), Obj::Rock { tier, hp }) => if 1 <= tier <= 4 && pick.tier
                < rocks_table()[tier - 1].req_tool_tier {
                s.events
            } else if 1 <= tier <= 4 {
                s.events.push(EventRec::Mine { x: t.0 as i16, y: t.1 as i16 })
            } else {
                s.mine(pid, t).events
            },
            _ => s.events,
        }),
{
    lemma_cell(s, t.0, t.1);
    if let Obj::Tree { tier, hp } = on_cell(s, t) {
        assert(1 <= tier <= 4 ==> crate::defs::tree_of(tier) == trees_table()[tier - 1]);
    }
    if let Obj::Rock { tier, hp } = on_cell(s, t) {
        assert(1 <= tier <= 4 ==> crate::defs::rock_of(tier) == rocks_table()[tier - 1]);
    }
}

/// Everybody sees a cast into water by one that can use its rod, and a berry being picked.
pub proof fn law_catches_are_seen(s: SimV, pid: u16, t: (i32, i32))
    requires
        s.grid_ok(),
        s.has(pid),
        s.in_b(t.0, t.1),
    ensures
        s.fish(pid, t).events == (match active_rod(
            s.p(pid).skills.fishing,
            s.p(pid).inv,
            s.p(pid).equipment,
        ) {
            Ok(rod) => if s.tiles[t.1 * s.w + t.0] == Tile::Water && s.p(pid).skills.fishing
                >= min_level(rod.tier) {
                s.events.push(EventRec::Fish { x: t.0 as i16, y: t.1 as i16 })
            } else {
                s.events
            },
            Err(_) => s.events,
        }),
        s.pick(pid, t).events == (match on_cell(s, t) {
            Obj::Bush { berries, regrow } => if berries > 0 {
                s.events.push(EventRec::Pick { x: t.0 as i16, y: t.1 as i16 })
            } else {
                s.events
            },
            _ => s.events,
        }),
{
    lemma_cell(s, t.0, t.1);
}

/// A tick counts one up, and what was seen in the last one is gone.
pub proof fn law_ticks_start_afresh(s: SimV)
    requires
        s.tick < u64::MAX,
    ensures
        s.next_tick().tick == s.tick + 1,
        s.next_tick().events.len() == 0,
        s.next_tick().objects_dirty.len() == 0,
        s.next_tick().objects == s.objects,
        s.next_tick().players.slots == s.players.slots,
        s.next_tick().mobs.slots == s.mobs.slots,
        s.next_tick().ground.slots == s.ground.slots,
        s.next_tick().chat == s.chat,
{
}

/// Whether a player was told of a skill's new level where it rose, and of nothing where it did not.
pub open spec fn told_of_level(
    p: PlayerV,
    q: PlayerV,
    skill: Seq<char>,
    before: i32,
    after: i32,
) -> bool {
    q.log == (if after > before {
        p.log.push("Level up! "@ + skill + " is now "@ + decimal(after as int) + "."@)
    } else {
        p.log
    })
}

/// A player is told of every level that it gains, by the name of the skill, and only then.
pub proof fn law_level_ups_are_told(p: PlayerV, base: int)
    ensures
        ({
            let q = p.trained_woodcutting(base);
            told_of_level(p, q, "Woodcutting"@, p.skills.woodcutting, q.skills.woodcutting)
        }),
        ({
            let q = p.trained_mining(base);
            told_of_level(p, q, "Mining"@, p.skills.mining, q.skills.mining)
        }),
        ({
            let q = p.trained_fishing(base);
            told_of_level(p, q, "Fishing"@, p.skills.fishing, q.skills.fishing)
        }),
        ({
            let q = p.trained_by_wound(0);
            told_of_level(p, q, "Defence"@, p.skills.defence, q.skills.defence)
        }),
        base != 0 ==> {
            let q = p.trained_by_wound(base);
            told_of_level(p, q, "HP"@, p.skills.hp, q.skills.hp)
        },
{
}

/// A player is told of the levels that a blow brings it, of attack before strength.
pub proof fn law_blows_tell_of_levels(p: PlayerV, dmg: int)
    ensures
        ({
            let q = p.trained_by_blow(dmg);
            exists|m: PlayerV| #[trigger]
                told_of_level(p, m, "Attack"@, p.skills.attack, q.skills.attack) && told_of_level(
                    m,
                    q,
                    "Strength"@,
                    p.skills.strength,
                    q.skills.strength,
                )
        }),
{
    let q = p.trained_by_blow(dmg);
    let m = p.leveled("Attack"@, p.skills.attack, q.skills.attack);
    assert(told_of_level(p, m, "Attack"@, p.skills.attack, q.skills.attack));
}

/// Who gets something that there is no room for has what it had, and is told so.
pub proof fn law_no_room(p: PlayerV, item: Seq<char>, line: Seq<char>)
    ensures
        !fits(p.inv, item) ==> p.got(item, line).inv == p.inv && p.got(item, line).log
            == p.log.push("Inventory full!"@),
        fits(p.inv, item) ==> p.got(item, line).log == p.log.push(line),
{
}

} // verus!
