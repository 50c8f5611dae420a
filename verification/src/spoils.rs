//! Where things come from and where they fall: drops, kills, what is made, and what is stored.

use vstd::prelude::*;
use crate::belongings::{ground_sound, law_dropped_lies_there, law_making_uses_stuff, lying};
use crate::combat::{drop_chance, drops_from};
use crate::defs::{
    armor_of, fish_by_rod, fish_table, item_price, min_level, mob_index, mob_kind, mob_of,
    mobs_table, sword_of, tools_table, ToolDef,
};
use crate::inventory::{deducted, fits, has_item, owns_rod, usable_rod, usable_rod_below, worth};
use crate::ledger::{sound, total};
use crate::levels::level_of;
use crate::pools::{fresh_mob, GroundsV, MobV, PlayerV};
use crate::rounding::{fraction_of, next_random};
use crate::save::{restored, within, StoredPlayer};
use crate::search::{first_at, lemma_first_at};
use crate::sim::{is_angler, is_blacksmith, stack_at, SimV};
use crate::types::{closed_ui, EquipV, Intent, SlotV, UiState, TPS};

verus! {

/// Whether on the ground nothing differs but what lies on one cell.
pub open spec fn only_there(a: GroundsV, b: GroundsV, x: i16, y: i16) -> bool {
    &&& a.slots.len() <= b.slots.len()
    &&& forall|k: int|
        0 <= k < b.slots.len() ==> (k < a.slots.len() && #[trigger] b.slots[k] == a.slots[k]) || (
        b.slots[k].alive && b.slots[k].x == x && b.slots[k].y == y)
}

proof fn lemma_there_twice(a: GroundsV, b: GroundsV, c: GroundsV, x: i16, y: i16)
    requires
        only_there(a, b, x, y),
        only_there(b, c, x, y),
    ensures
        only_there(a, c, x, y),
{
    assert forall|k: int| 0 <= k < c.slots.len() implies (k < a.slots.len()
        && #[trigger] c.slots[k] == a.slots[k]) || (c.slots[k].alive && c.slots[k].x == x
        && c.slots[k].y == y) by {
        if k < b.slots.len() && c.slots[k] == b.slots[k] {
            assert(b.slots[k] == c.slots[k]);
        }
    }
}

/// What falls on a cell lies on that cell, and elsewhere everything stays.
pub proof fn law_things_fall_on_their_cell(s: SimV, x: i32, y: i32, item: Seq<char>, qty: i32)
    requires
        crate::pools::free_ok(s.ground.free, s.ground.alive()),
    ensures
        only_there(s.ground, s.dropped(x, y, item, qty).ground, x as i16, y as i16),
{
    let slots = s.ground.slots;
    lemma_first_at(slots, stack_at(x, y, item), 0);
    let k = first_at(slots, stack_at(x, y, item), 0);
    if k < slots.len() {
        assert(stack_at(x, y, item)(slots[k]));
    }
    if s.ground.free.len() > 0 {
        assert(s.ground.free[s.ground.free.len() - 1] < s.ground.alive().len());
    }
}

/// What a player drops falls where it stands.
pub proof fn law_drops_fall_at_the_feet(s: SimV, pid: u16, slot: usize)
    requires
        s.has(pid),
        crate::pools::free_ok(s.ground.free, s.ground.alive()),
    ensures
        only_there(s.ground, s.drop_one(pid, slot).ground, s.p(pid).x, s.p(pid).y),
{
    let p = s.p(pid);
    let c = p.inv[slot as int];
    let t = s.put(
        pid,
        PlayerV {
            inv: p.inv.update(slot as int, crate::inventory::slot_left(c, (c.qty - 1) as i32)),
            ..p
        }.said("You drop "@ + crate::defs::item_label(c.item) + "."@),
    );
    law_things_fall_on_their_cell(t, p.x as i32, p.y as i32, c.item, 1);
}

/// How often an item is among the first tools of a list.
pub open spec fn times(drops: Seq<ToolDef>, n: int, item: Seq<char>) -> int
    decreases n,
{
    if n <= 0 {
        0
    } else {
        times(drops, n - 1, item) + if drops[n - 1].item@ == item {
            1int
        } else {
            0
        }
    }
}

/// No more lies about than can be counted, with room for what a creature leaves.
pub open spec fn ground_has_room(g: GroundsV) -> bool {
    forall|i: Seq<char>| #[trigger] lying(g.slots, i) <= 2_000_000_000
}

proof fn lemma_tool_items(drops: Seq<ToolDef>, n: int)
    requires
        0 <= n <= drops.len(),
        forall|j: int|
            0 <= j < drops.len() ==> exists|i: int|
                0 <= i < 8 && #[trigger] tools_table()[i] == (#[trigger] drops[j]),
    ensures
        forall|j: int|
            0 <= j < n ==> (#[trigger] drops[j]).item@.len() > 0 && drops[j].item@ != "coins"@,
{
    reveal_strlit("coins");
    reveal_strlit("bronze_axe");
    reveal_strlit("iron_axe");
    reveal_strlit("steel_axe");
    reveal_strlit("cobalt_axe");
    reveal_strlit("bronze_pickaxe");
    reveal_strlit("iron_pickaxe");
    reveal_strlit("steel_pickaxe");
    reveal_strlit("cobalt_pickaxe");
    assert("coins"@.len() == 5);
    assert forall|i: int| 0 <= i < 8 implies (#[trigger] tools_table()[i]).item@.len() > 5 by {
        assert(i == 0 || i == 1 || i == 2 || i == 3 || i == 4 || i == 5 || i == 6 || i == 7);
    }
    assert forall|j: int| 0 <= j < n implies (#[trigger] drops[j]).item@.len() > 0
        && drops[j].item@ != "coins"@ by {
        let i = choose|i: int| 0 <= i < 8 && #[trigger] tools_table()[i] == drops[j];
        assert(tools_table()[i].item@.len() > 5);
    }
}

proof fn lemma_spilled(
    s: SimV,
    pid: u16,
    kind: Seq<char>,
    x: i32,
    y: i32,
    drops: Seq<ToolDef>,
    n: int,
)
    requires
        0 <= n <= drops.len() <= 8,
        ground_sound(s.ground),
        forall|i: Seq<char>| #[trigger] lying(s.ground.slots, i) <= 2_000_100_000,
        forall|j: int|
            0 <= j < drops.len() ==> (#[trigger] drops[j]).item@.len() > 0 && drops[j].item@
                != "coins"@,
    ensures
        ({
            let t = s.spilled(pid, kind, x, y, drops, n);
            &&& ground_sound(t.ground)
            &&& only_there(s.ground, t.ground, x as i16, y as i16)
            &&& forall|i: Seq<char>| #[trigger]
                lying(t.ground.slots, i) == lying(s.ground.slots, i) + times(drops, n, i)
            &&& forall|i: Seq<char>| 0 <= #[trigger] times(drops, n, i) <= n
        }),
    decreases n,
{
    if n > 0 {
        lemma_spilled(s, pid, kind, x, y, drops, n - 1);
        let u = s.spilled(pid, kind, x, y, drops, n - 1);
        let item = drops[n - 1].item@;
        assert(lying(s.ground.slots, item) <= 2_000_100_000);
        assert(0 <= times(drops, n - 1, item) <= n - 1);
        law_dropped_lies_there(u, x, y, item, 1);
        law_things_fall_on_their_cell(u, x, y, item, 1);
        let v = u.dropped(x, y, item, 1);
        lemma_there_twice(s.ground, u.ground, v.ground, x as i16, y as i16);
        let t = s.spilled(pid, kind, x, y, drops, n);
        assert(t.ground == v.ground);
        assert forall|i: Seq<char>| #[trigger]
            lying(t.ground.slots, i) == lying(s.ground.slots, i) + times(drops, n, i) by {
            assert(lying(u.ground.slots, i) == lying(s.ground.slots, i) + times(drops, n - 1, i));
            assert(lying(v.ground.slots, i) == lying(u.ground.slots, i) + if i == item {
                1int
            } else {
                0
            });
        }
        assert forall|i: Seq<char>| 0 <= #[trigger] times(drops, n, i) <= n by {
            assert(0 <= times(drops, n - 1, i) <= n - 1);
        }
    }
}

/// A creature that is killed leaves its coins and the tools that are drawn for its tier, all on
/// the cell where it fell, and nothing else.
pub proof fn law_kills_leave_spoils(s: SimV, pid: u16, mid: u16, item: Seq<char>)
    requires
        s.has(pid),
        mid < s.mobs.slots.len(),
        s.m(mid).kind_id < 4,
        ground_sound(s.ground),
        ground_has_room(s.ground),
    ensures
        ({
            let t = s.slain(pid, mid);
            let m = s.m(mid);
            let row = mobs_table()[m.kind_id as int];
            let drops = drops_from(s.rng, row.tier as int, 0).0;
            &&& only_there(s.ground, t.ground, m.x, m.y)
            &&& lying(t.ground.slots, item) == lying(s.ground.slots, item) + (if item == "coins"@ {
                row.coin as int
            } else {
                0
            }) + times(drops, drops.len() as int, item)
            &&& item == "coins"@ ==> times(drops, drops.len() as int, item) == 0
        }),
{
    reveal_strlit("coins");
    let m = s.m(mid);
    crate::defs::law_mob_kind_round_trip(m.kind_id);
    let kind = mob_kind(m.kind_id);
    let def = mob_of(kind);
    assert(def == mobs_table()[m.kind_id as int]);
    assert(m.kind_id == 0 || m.kind_id == 1 || m.kind_id == 2 || m.kind_id == 3);
    let (drops, rng) = drops_from(s.rng, def.tier as int, 0);
    crate::fights::law_drops_are_of_the_tier(s.rng, def.tier as int, 0);
    lemma_tool_items(drops, drops.len() as int);
    let u = SimV {
        rng,
        ..s.put(pid, s.p(pid).said("You kill the "@ + kind + "!"@).idle())
    }.put_mob(mid, MobV { respawn_at: s.tick.wrapping_add((20 * TPS) as u64), ..m });
    let (x, y) = (m.x as i32, m.y as i32);
    assert(lying(s.ground.slots, "coins"@) <= 2_000_000_000);
    assert("coins"@.len() == 5);
    law_dropped_lies_there(u, x, y, "coins"@, def.coin);
    law_things_fall_on_their_cell(u, x, y, "coins"@, def.coin);
    let v = u.dropped(x, y, "coins"@, def.coin);
    assert forall|i: Seq<char>| #[trigger] lying(v.ground.slots, i) <= 2_000_100_000 by {
        assert(lying(s.ground.slots, i) <= 2_000_000_000);
    }
    lemma_spilled(v, pid, kind, x, y, drops, drops.len() as int);
    let t = s.slain(pid, mid);
    assert(t == v.spilled(pid, kind, x, y, drops, drops.len() as int));
    lemma_there_twice(s.ground, v.ground, t.ground, m.x, m.y);
    lemma_no_coins(drops, drops.len() as int);
    assert(lying(v.ground.slots, item) == lying(s.ground.slots, item) + if item == "coins"@ {
        def.coin as int
    } else {
        0
    });
}

proof fn lemma_no_coins(drops: Seq<ToolDef>, n: int)
    requires
        0 <= n <= drops.len(),
        forall|j: int| 0 <= j < drops.len() ==> (#[trigger] drops[j]).item@ != "coins"@,
    ensures
        times(drops, n, "coins"@) == 0,
    decreases n,
{
    if n > 0 {
        lemma_no_coins(drops, n - 1);
        assert(drops[n - 1].item@ != "coins"@);
    }
}

/// A tool of the first tier drops once in eighty times, as near as a 32-bit float comes, and one
/// of each further tier a quarter as often.
pub proof fn law_drop_chances(tier: int)
    requires
        1 <= tier <= 4,
    ensures
        tier > 1 ==> drop_chance(tier - 1) == 4 * drop_chance(tier),
        tier == 1 ==> 0 <= 80 * drop_chance(tier) - 0x1_0000_0000_0000_0000 <= 0x40_0000_0000,
{
}

/// The first tool of a creature's tier drops exactly where the number drawn for it is below the
/// chance.
pub proof fn law_tools_are_drawn(rng: u64, tier: int, k: int)
    requires
        0 <= k < 8,
        tools_table()[k].tier == tier,
    ensures
        ({
            let drops = drops_from(rng, tier, k).0;
            let rest = drops_from(next_random(rng), tier, k + 1).0;
            if fraction_of(next_random(rng)) < drop_chance(tier) {
                drops == seq![tools_table()[k]] + rest
            } else {
                drops == rest
            }
        }),
{
}

/// A creature that comes into the world is as its row says, unhurt, up, and at home where it
/// stands.
pub proof fn law_creatures_start_as_their_row(kind: Seq<char>, x: i32, y: i32, gen: u16, k: int)
    requires
        0 <= k < 4,
        mobs_table()[k].kind@ == kind,
    ensures
        ({
            let (m, row) = (fresh_mob(kind, x, y, gen), mobs_table()[mob_index(kind)]);
            &&& row.kind@ == kind
            &&& m.alive && m.respawn_at == 0
            &&& (m.x, m.y) == (x as i16, y as i16) && m.home == (x as i16, y as i16)
            &&& m.hp_cur == row.hp && m.hp_max == row.hp
            &&& (m.attack, m.strength, m.defence) == (row.attack, row.strength, row.defence)
            &&& m.kind_id == mob_index(kind)
        }),
{
    crate::defs::lemma_mob_bounds(kind);
    let t = mobs_table();
    let f = crate::defs::mob_named(kind);
    lemma_first_at(t, f, 0);
    assert(f(t[k]));
    let n = first_at(t, f, 0);
    assert(n <= k);
    assert(f(t[n]));
}

/// The blacksmith makes a piece of armour or a sword from the ore of its row, just as much of it
/// as the row says, where there is room for it.
pub proof fn law_forging(s: SimV, pid: u16, item: Seq<char>)
    requires
        s.has(pid),
        s.near(pid, is_blacksmith()),
        sound(s.p(pid).inv),
        forall|i: Seq<char>| #[trigger] total(s.p(pid).inv, i) < i32::MAX,
    ensures
        armor_of(item) matches Some(d) ==> (d.item@.len() > 0 && d.ore@.len() > 0 && d.item@ != d.ore@
            && d.ore_qty > 0 ==> made_from(
            s.p(pid).inv,
            s.forge(pid, item).p(pid).inv,
            d.item@,
            d.ore@,
            d.ore_qty,
        )),
        armor_of(item) is None ==> (sword_of(item) matches Some(d) ==> (d.item@.len() > 0
            && d.ore@.len() > 0 && d.item@ != d.ore@ && d.ore_qty > 0 ==> made_from(
            s.p(pid).inv,
            s.forge(pid, item).p(pid).inv,
            d.item@,
            d.ore@,
            d.ore_qty,
        ))),
        armor_of(item) is None && sword_of(item) is None ==> s.forge(pid, item) == s,
{
    let inv = s.p(pid).inv;
    if let Some(d) = armor_of(item) {
        if d.item@.len() > 0 && d.ore@.len() > 0 && d.item@ != d.ore@ && d.ore_qty > 0 {
            lemma_made(s, pid, item, d.item@, d.ore@, d.ore_qty);
        }
    } else if let Some(d) = sword_of(item) {
        if d.item@.len() > 0 && d.ore@.len() > 0 && d.item@ != d.ore@ && d.ore_qty > 0 {
            lemma_made(s, pid, item, d.item@, d.ore@, d.ore_qty);
        }
    }
}

/// Whether so much of a stuff became one item, where there was enough of it and room.
pub open spec fn made_from(
    before: Seq<SlotV>,
    after: Seq<SlotV>,
    item: Seq<char>,
    stuff: Seq<char>,
    qty: i32,
) -> bool {
    if total(before, stuff) < qty {
        after == before
    } else if fits(deducted(before, stuff, qty), item) {
        total(after, stuff) == total(before, stuff) - qty && total(after, item) == total(
            before,
            item,
        ) + 1
    } else {
        total(after, stuff) == total(before, stuff) && total(after, item) == total(before, item)
    }
}

proof fn lemma_made(
    s: SimV,
    pid: u16,
    asked: Seq<char>,
    item: Seq<char>,
    stuff: Seq<char>,
    qty: i32,
)
    requires
        s.has(pid),
        s.near(pid, is_blacksmith()),
        sound(s.p(pid).inv),
        forall|i: Seq<char>| #[trigger] total(s.p(pid).inv, i) < i32::MAX,
        item.len() > 0,
        stuff.len() > 0,
        item != stuff,
        qty > 0,
        crate::inventory::recipe_of(asked) matches Some(r) && r.0@ == item && r.2@ == stuff && r.3
            == qty,
    ensures
        made_from(s.p(pid).inv, s.forge(pid, asked).p(pid).inv, item, stuff, qty),
{
    let r = crate::inventory::recipe_of(asked).unwrap();
    let missing = "You need "@ + crate::text::decimal(qty as int) + " "@ + crate::defs::item_label(
        stuff,
    ) + " to forge a "@ + r.1@ + "."@;
    let done = "The blacksmith forges a "@ + r.1@ + " from "@ + crate::text::decimal(qty as int)
        + " "@ + crate::defs::item_label(stuff) + "."@;
    assert(total(s.p(pid).inv, stuff) < i32::MAX && total(s.p(pid).inv, item) < i32::MAX);
    law_making_uses_stuff(s, pid, item, stuff, qty, missing, done);
    assert(s.forge(pid, asked) == s.made(pid, item, stuff, qty, missing, done));
}

/// The angler gives a rod for ten of its logs to one that does not have it.
pub proof fn law_rods_for_logs(s: SimV, pid: u16, k: int)
    requires
        s.has(pid),
        s.near(pid, is_angler()),
        sound(s.p(pid).inv),
        forall|i: Seq<char>| #[trigger] total(s.p(pid).inv, i) < i32::MAX,
        0 <= k < 4,
    ensures
        ({
            let row = fish_table()[k];
            let (p, q) = (s.p(pid), s.angler_buy(pid, row.rod@).p(pid));
            if has_item(p.inv, row.rod@) || p.equipment.right_hand == row.rod@ {
                q.inv == p.inv
            } else {
                made_from(p.inv, q.inv, row.rod@, row.resource@, 10)
            }
        }),
{
    reveal_strlit("yabbypot");
    reveal_strlit("oakrod");
    reveal_strlit("yewrod");
    reveal_strlit("magicrod");
    reveal_strlit("pine_logs");
    reveal_strlit("oak_logs");
    reveal_strlit("yew_logs");
    reveal_strlit("magic_logs");
    let t = fish_table();
    let row = t[k];
    let f = crate::defs::fish_with_rod(row.rod@);
    lemma_first_at(t, f, 0);
    let n = first_at(t, f, 0);
    assert("yabbypot"@.len() == 8 && "oakrod"@.len() == 6 && "yewrod"@.len() == 6);
    assert("magicrod"@.len() == 8);
    assert("oakrod"@[0] != "yewrod"@[0] && "yabbypot"@[0] != "magicrod"@[0]);
    assert("pine_logs"@.len() == 9 && "oak_logs"@.len() == 8 && "yew_logs"@.len() == 8);
    assert("magic_logs"@.len() == 10);
    assert("oakrod"@ != "oak_logs"@ && "yabbypot"@ != "pine_logs"@);
    assert(k == 0 || k == 1 || k == 2 || k == 3);
    assert(f(t[k]));
    assert(n <= k);
    assert(f(t[n]));
    assert(n == 0 || n == 1 || n == 2 || n == 3);
    assert(n == k);
    assert(fish_by_rod(row.rod@) == Some(row));
    let label = crate::defs::item_label(row.resource@);
    let ten = crate::text::decimal(10);
    let missing = "The angler wants "@ + ten + " "@ + label + " for the "@ + row.rod_name@ + "."@;
    let done = "The angler hands you a "@ + row.rod_name@ + " for "@ + ten + " "@ + label + "."@;
    assert(total(s.p(pid).inv, row.resource@) < i32::MAX);
    assert(total(s.p(pid).inv, row.rod@) < i32::MAX);
    law_making_uses_stuff(s, pid, row.rod@, row.resource@, 10, missing, done);
    if !owns_rod(s.p(pid).inv, s.p(pid).equipment, row.rod@) {
        assert(s.angler_buy(pid, row.rod@) == s.made(
            pid,
            row.rod@,
            row.resource@,
            10,
            missing,
            done,
        ));
    }
}

/// The rod that one fishes with is owned and allowed by the level, and no higher one is both.
pub proof fn law_best_rod(fishing: i32, inv: Seq<SlotV>, e: EquipV, k: int)
    requires
        0 <= k < 4,
    ensures
        usable_rod(fishing, inv, e) matches Some(f) ==> fishing >= min_level(f.tier) && (has_item(
            inv,
            f.rod@,
        ) || e.right_hand == f.rod@),
        fishing >= 10 * k + 1 && (has_item(inv, fish_table()[k].rod@) || e.right_hand
            == fish_table()[k].rod@) ==> (usable_rod(fishing, inv, e) matches Some(f) && f.tier
            >= k),
{
    reveal_with_fuel(usable_rod_below, 5);
    assert(k == 0 || k == 1 || k == 2 || k == 3);
    assert(fish_table()[0].tier == 0 && fish_table()[1].tier == 1);
    assert(fish_table()[2].tier == 2 && fish_table()[3].tier == 3);
}

/// An inventory with a stack of something worth coins is worth that much more, a coin for each
/// coin.
pub proof fn law_worth_adds_up(inv: Seq<SlotV>, stack: SlotV)
    requires
        stack.qty > 0,
        stack.item.len() > 0,
    ensures
        stack.item == "coins"@ ==> worth(inv.push(stack)) == worth(inv) + stack.qty,
        stack.item != "coins"@ ==> worth(inv.push(stack)) == worth(inv) + (match item_price(
            stack.item,
        ) {
            Some(unit) => unit * stack.qty,
            None => 0,
        }),
        worth(Seq::<SlotV>::empty()) == 0,
{
    assert(inv.push(stack).drop_last() =~= inv);
}

/// A window that is closed is closed and the others stay; who stops has nothing to do and no
/// trade; who declines closes the angel's window.
pub proof fn law_windows(s: SimV, pid: u16)
    requires
        s.has(pid),
        s.players.slots.len() <= 0x1_0000,
    ensures
        s.close(pid, "trade"@).p(pid).ui == (UiState { trade_open: false, ..s.p(pid).ui }),
        s.close(pid, "forge"@).p(pid).ui == (UiState { forge_open: false, ..s.p(pid).ui }),
        s.close(pid, "angler"@).p(pid).ui == (UiState { angler_open: false, ..s.p(pid).ui }),
        s.decline(pid).p(pid).ui == (UiState { angel_modal_open: false, ..s.p(pid).ui }),
        ({
            let (p, q) = (s.p(pid), s.stop(pid).p(pid));
            &&& q.intent == Intent::Idle && q.target is None && q.trade.partner is None
            &&& q.inv == p.inv && (q.x, q.y) == (p.x, p.y)
            &&& q.ui == (UiState { forge_open: p.ui.forge_open, ..closed_ui() })
        }),
{
    reveal_strlit("trade");
    reveal_strlit("forge");
    reveal_strlit("angler");
    assert("trade"@[0] != "forge"@[0]);
    assert("angler"@.len() == 6 && "forge"@.len() == 5 && "trade"@.len() == 5);
}

/// What is stored comes back with the levels that its experience gives, 28 slots, and old fishing
/// rods as oak rods; everything else as it was.
pub proof fn law_records_are_mended(uuid: Seq<char>, row: StoredPlayer, k: int)
    requires
        0 <= k < 28,
    ensures
        ({
            let r = restored(uuid, row);
            &&& r.uuid == uuid
            &&& (r.x, r.y, r.hp_cur) == (row.x, row.y, row.hp_cur)
            &&& r.name == row.name@
            &&& (row.skills matches Some(s) ==> {
                &&& r.skills.woodcutting_xp == s.woodcutting_xp
                &&& r.skills.mining_xp == s.mining_xp
                &&& r.skills.fishing_xp == s.fishing_xp
                &&& r.skills.attack_xp == s.attack_xp
                &&& r.skills.strength_xp == s.strength_xp
                &&& r.skills.defence_xp == s.defence_xp
                &&& r.skills.hp_xp == s.hp_xp
                &&& r.skills.angel_points == s.angel_points
            })
            &&& r.skills.woodcutting == level_of(r.skills.woodcutting_xp)
            &&& r.skills.mining == level_of(r.skills.mining_xp)
            &&& r.skills.fishing == level_of(r.skills.fishing_xp)
            &&& r.skills.attack == level_of(r.skills.attack_xp)
            &&& r.skills.strength == level_of(r.skills.strength_xp)
            &&& r.skills.defence == level_of(r.skills.defence_xp)
            &&& r.inv.len() == 28
            &&& (row.inv matches Some(v) ==> (k < v@.len() ==> r.inv[k].qty == v@[k].qty && (
            v@[k].item@ != "fishing_rod"@ ==> r.inv[k].item == v@[k].item@) && (v@[k].item@
                == "fishing_rod"@ && v@[k].qty > 0 ==> r.inv[k].item == "oakrod"@)))
        }),
{
}

/// A stored player comes back with between one and all of its hit points.
pub proof fn law_hit_points_are_held(hp: i32, most: i32)
    requires
        1 <= most,
    ensures
        1 <= within(hp, most) <= most,
        1 <= hp <= most ==> within(hp, most) == hp,
        hp > most ==> within(hp, most) == most,
{
}

/// What is taken off goes back into the inventory where there is room for it, and else falls where
/// the player stands. So does what another thing is put on in place of.
pub proof fn law_what_does_not_fit_falls_at_the_feet(
    s: SimV,
    pid: u16,
    item: Seq<char>,
    place: Seq<char>,
    slot: usize,
)
    requires
        s.has(pid),
        crate::pools::free_ok(s.ground.free, s.ground.alive()),
    ensures
        fits(s.p(pid).inv, item) ==> s.put_back(pid, item).ground == s.ground,
        only_there(s.ground, s.put_back(pid, item).ground, s.p(pid).x, s.p(pid).y),
        only_there(s.ground, s.unequip(pid, place).ground, s.p(pid).x, s.p(pid).y),
        only_there(s.ground, s.equip(pid, slot).ground, s.p(pid).x, s.p(pid).y),
{
    let p = s.p(pid);
    let (x, y) = (p.x as i32, p.y as i32);
    law_things_fall_on_their_cell(s, x, y, item, 1);
    let worn = p.equipment.at(place);
    let bare = s.put(pid, PlayerV { equipment: p.equipment.with(place, Seq::empty()), ..p });
    law_things_fall_on_their_cell(bare, x, y, worn, 1);
    let c = p.inv[slot as int];
    if let Some(at) = crate::defs::equip_place(c.item) {
        let left = if c.qty > 1 {
            SlotV { qty: (c.qty - 1) as i32, ..c }
        } else {
            crate::types::free_slot()
        };
        let dressed = s.put(
            pid,
            PlayerV {
                inv: p.inv.update(slot as int, left),
                equipment: p.equipment.with(at, c.item),
                ..p
            },
        );
        law_things_fall_on_their_cell(dressed, x, y, p.equipment.at(at), 1);
    }
}

/// Whether all that lies elsewhere than on one cell lay there before, and still does.
pub open spec fn same_elsewhere(a: GroundsV, b: GroundsV, x: i16, y: i16) -> bool {
    &&& forall|k: int|
        0 <= k < b.slots.len() && (#[trigger] b.slots[k]).alive && (b.slots[k].x, b.slots[k].y) != (
        x, y) ==> k < a.slots.len() && b.slots[k] == a.slots[k]
    &&& forall|k: int|
        0 <= k < a.slots.len() && (#[trigger] a.slots[k]).alive && (a.slots[k].x, a.slots[k].y) != (
        x, y) ==> k < b.slots.len() && b.slots[k] == a.slots[k]
}

proof fn lemma_free_stays(s: SimV, h: u16, x: i32, y: i32, item: Seq<char>, qty: i32)
    requires
        crate::pools::free_ok(s.ground.free, s.ground.alive()),
        h < s.ground.slots.len(),
    ensures
        ({
            let r = s.ground.remove_entity(h);
            crate::pools::free_ok(r.free, r.alive())
        }),
        ({
            let r = s.dropped(x, y, item, qty).ground;
            &&& crate::pools::free_ok(r.free, r.alive())
            &&& s.ground.free.len() == 0 || s.ground.slots[s.ground.free.last() as int].alive
                == false
            &&& forall|k: int|
                0 <= k < s.ground.slots.len() && s.ground.slots[k].alive
                    ==> (#[trigger] r.slots[k]).alive && (r.slots[k].x, r.slots[k].y) == (
                s.ground.slots[k].x, s.ground.slots[k].y)
        }),
{
    let g = s.ground;
    let n = g.free.len() as int;
    let r = g.remove_entity(h);
    assert forall|j: int| 0 <= j < r.free.len() implies !r.alive()[#[trigger] r.free[j] as int] by {
        if j < n {
            assert(!g.alive()[g.free[j] as int]);
        }
    }
    assert forall|j: int, k: int| 0 <= j < k < r.free.len() implies r.free[j] != r.free[k] by {
        if k == n {
            assert(!g.alive()[g.free[j] as int]);
        }
    }
    lemma_first_at(g.slots, stack_at(x, y, item), 0);
    let m = first_at(g.slots, stack_at(x, y, item), 0);
    if m < g.slots.len() {
        assert(stack_at(x, y, item)(g.slots[m]));
    }
    let t = s.dropped(x, y, item, qty).ground;
    if n > 0 {
        assert(!g.alive()[g.free[n - 1] as int]);
    }
    assert forall|j: int| 0 <= j < t.free.len() implies !t.alive()[#[trigger] t.free[j] as int] by {
        assert(t.free[j] == g.free[j]);
        assert(!g.alive()[g.free[j] as int]);
    }
}

proof fn lemma_put_down(s: SimV, pid: u16, ids: Seq<u16>, n: int, x: i16, y: i16)
    requires
        0 <= n <= ids.len(),
        s.has(pid),
        crate::pools::free_ok(s.ground.free, s.ground.alive()),
        forall|j: int|
            0 <= j < ids.len() ==> (#[trigger] ids[j]) < s.ground.slots.len() && (
            s.ground.slots[ids[j] as int].x, s.ground.slots[ids[j] as int].y) == (x, y),
    ensures
        ({
            let t = s.pick_up(pid, ids, n).0;
            &&& crate::pools::free_ok(t.ground.free, t.ground.alive())
            &&& t.ground.slots.len() >= s.ground.slots.len()
            &&& same_elsewhere(s.ground, t.ground, x, y)
            &&& forall|j: int|
                0 <= j < ids.len() ==> (t.ground.slots[#[trigger] ids[j] as int].x,
                t.ground.slots[ids[j] as int].y) == (x, y)
        }),
    decreases n,
{
    if n > 0 {
        lemma_put_down(s, pid, ids, n - 1, x, y);
        let (u, was_full) = s.pick_up(pid, ids, n - 1);
        let (t, full) = s.pick_up(pid, ids, n);
        let h = ids[n - 1];
        let g = u.ground.slots[h as int];
        let v = SimV { ground: u.ground.remove_entity(h), ..u };
        assert(h < u.ground.slots.len() && (g.x, g.y) == (x, y));
        lemma_free_stays(u, h, x as i32, y as i32, g.item, g.qty);
        lemma_free_stays(v, h, x as i32, y as i32, g.item, g.qty);
        law_things_fall_on_their_cell(v, x as i32, y as i32, g.item, g.qty);
        assert(t.ground == v.ground || t.ground == v.dropped(
            x as i32,
            y as i32,
            g.item,
            g.qty,
        ).ground);
        assert forall|k: int|
            0 <= k < s.ground.slots.len() && (#[trigger] s.ground.slots[k]).alive && (
            s.ground.slots[k].x, s.ground.slots[k].y) != (x, y) implies k < t.ground.slots.len()
            && t.ground.slots[k] == s.ground.slots[k] by {
            assert(u.ground.slots[k] == s.ground.slots[k]);
            assert(k != h);
            assert(v.ground.slots[k] == s.ground.slots[k]);
            assert(t.ground.slots[k].alive);
        }
        assert forall|k: int|
            0 <= k < t.ground.slots.len() && (#[trigger] t.ground.slots[k]).alive && (
            t.ground.slots[k].x, t.ground.slots[k].y) != (x, y) implies k < s.ground.slots.len()
            && t.ground.slots[k] == s.ground.slots[k] by {
            assert(t.ground.slots[k] == v.ground.slots[k]);
            assert(k != h);
            assert(u.ground.slots[k].alive);
        }
        assert forall|j: int| 0 <= j < ids.len() implies (t.ground.slots[
            #[trigger] ids[j] as int
        ].x, t.ground.slots[ids[j] as int].y) == (x, y) by {
            let k = ids[j] as int;
            assert((u.ground.slots[k].x, u.ground.slots[k].y) == (x, y));
            assert((v.ground.slots[k].x, v.ground.slots[k].y) == (x, y));
        }
    }
}

/// What cannot be picked up stays on its cell, and what lies elsewhere is not touched.
pub proof fn law_picking_up_stays_on_the_cell(s: SimV, pid: u16, t: (i32, i32))
    requires
        s.has(pid),
        s.ground.slots.len() <= 0x1_0000,
        crate::pools::free_ok(s.ground.free, s.ground.alive()),
    ensures
        same_elsewhere(s.ground, s.pickup(pid, t).ground, t.0 as i16, t.1 as i16),
{
    let ids = s.stacks_on(t.0, t.1);
    crate::dealings::lemma_stacks_on(s, t.0, t.1);
    lemma_put_down(s.rest(pid), pid, ids, ids.len() as int, t.0 as i16, t.1 as i16);
}

} // verus!
