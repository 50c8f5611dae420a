//! Who has what: laws of the shop, of trades between players, of what is worn, eaten,
//! dropped and picked up.

use vstd::prelude::*;
use crate::actions::{added_times, meal};
use crate::defs::{
    armor_named, armors_table, equip_place, fish_with_fish, fish_table, item_price, shop_price, tool_named,
    tools_table,
};
use crate::inventory::{
    added, can_receive, deducted, fits, has_item, offered, offer_ok, paid, slot_free, slot_left,
    slot_with,
};
use crate::ledger::{
    held, law_add_adds, law_count_is_total, law_deduct_takes, law_exchange_conserves,
    law_payment_takes_coins, lemma_not_held, lemma_room, lemma_total_sound, lemma_total_update,
    others_kept, sound, total,
};
use crate::pools::{free_ok, live_below, GroundV, GroundsV, PlayerV};
use crate::search::{first_at, lemma_first_at};
use crate::sim::{is_trader, lying_at, stack_at, SimV};
use crate::types::{free_slot, is_equip_slot, EquipV, SlotV, TradeStage, INV_SIZE};

verus! {

/// What a stack on the ground holds of an item.
pub open spec fn lies_in(g: GroundV, item: Seq<char>) -> int {
    if g.alive && g.item == item {
        g.qty as int
    } else {
        0
    }
}

/// How much of an item lies on the ground.
pub open spec fn lying(slots: Seq<GroundV>, item: Seq<char>) -> int
    decreases slots.len(),
{
    if slots.len() == 0 {
        0
    } else {
        lying(slots.drop_last(), item) + lies_in(slots.last(), item)
    }
}

/// The ground is in order: every stack holds something that has a name, no place holds
/// less than nothing, and the free places are places without a stack.
pub open spec fn ground_sound(g: GroundsV) -> bool {
    &&& free_ok(g.free, g.alive())
    &&& forall|k: int|
        0 <= k < g.slots.len() ==> (#[trigger] g.slots[k]).qty >= 0 && (g.slots[k].alive ==> g.slots[k].qty > 0
            && g.slots[k].item.len() > 0)
}

proof fn lemma_lying_update(slots: Seq<GroundV>, k: int, g: GroundV, item: Seq<char>)
    requires
        0 <= k < slots.len(),
    ensures
        lying(slots.update(k, g), item) == lying(slots, item) - lies_in(slots[k], item) + lies_in(
            g,
            item,
        ),
    decreases slots.len(),
{
    let u = slots.update(k, g);
    if k == slots.len() - 1 {
        assert(u.drop_last() =~= slots.drop_last());
    } else {
        lemma_lying_update(slots.drop_last(), k, g, item);
        assert(u.drop_last() =~= slots.drop_last().update(k, g));
    }
}

proof fn lemma_lying_sound(slots: Seq<GroundV>, item: Seq<char>)
    requires
        forall|k: int| 0 <= k < slots.len() ==> (#[trigger] slots[k]).qty >= 0,
    ensures
        lying(slots, item) >= 0,
        forall|k: int| 0 <= k < slots.len() ==> lies_in(#[trigger] slots[k], item) <= lying(slots, item),
    decreases slots.len(),
{
    if slots.len() > 0 {
        let d = slots.drop_last();
        assert forall|k: int| 0 <= k < d.len() implies (#[trigger] d[k]).qty >= 0 by {
            assert(slots[k].qty >= 0);
        }
        lemma_lying_sound(d, item);
        assert(slots[slots.len() - 1].qty >= 0);
        assert forall|k: int| 0 <= k < slots.len() implies lies_in(#[trigger] slots[k], item)
            <= lying(slots, item) by {
            if k < d.len() {
                assert(lies_in(d[k], item) <= lying(d, item));
            }
        }
    }
}

/// What is dropped lies on the ground afterwards, just that much of it, and of every
/// other item there lies as much as before.
pub proof fn law_dropped_lies_there(s: SimV, x: i32, y: i32, item: Seq<char>, qty: i32)
    requires
        ground_sound(s.ground),
        item.len() > 0,
        0 < qty,
        lying(s.ground.slots, item) + qty <= i32::MAX,
    ensures
        forall|i: Seq<char>| #[trigger]
            lying(s.dropped(x, y, item, qty).ground.slots, i) == lying(s.ground.slots, i) + if i
                == item {
                qty as int
            } else {
                0
            },
        s.dropped(x, y, item, qty).players == s.players,
        ground_sound(s.dropped(x, y, item, qty).ground),
        s.ground.slots.len() <= s.dropped(x, y, item, qty).ground.slots.len(),
        forall|k: int|
            0 <= k < s.ground.slots.len() && s.ground.slots[k].alive ==> (#[trigger] s.dropped(
                x,
                y,
                item,
                qty,
            ).ground.slots[k]).alive,
{
    let k = first_at(s.ground.slots, stack_at(x, y, item), 0);
    lemma_first_at(s.ground.slots, stack_at(x, y, item), 0);
    lemma_lying_sound(s.ground.slots, item);
    let r = s.dropped(x, y, item, qty).ground;
    if k < s.ground.slots.len() {
        let g = s.ground.slots[k];
        assert(stack_at(x, y, item)(g));
        assert(lies_in(g, item) <= lying(s.ground.slots, item));
        assert forall|i: Seq<char>| #[trigger]
            lying(r.slots, i) == lying(s.ground.slots, i) + if i == item {
                qty as int
            } else {
                0
            } by {
            lemma_lying_update(
                s.ground.slots,
                k,
                GroundV { qty: g.qty.wrapping_add(qty), ..g },
                i,
            );
        }
        assert(r.alive() =~= s.ground.alive());
    } else if s.ground.free.len() > 0 {
        let f = s.ground.free.last() as int;
        let n = s.ground.free.len() - 1;
        assert(s.ground.free[n] < s.ground.alive().len());
        assert(!s.ground.alive()[s.ground.free[n] as int]);
        let g = GroundV {
            alive: true,
            gen: s.ground.next_gen(),
            x: x as i16,
            y: y as i16,
            item,
            qty,
        };
        assert(r.slots == s.ground.slots.update(f, g));
        assert forall|i: Seq<char>| #[trigger]
            lying(r.slots, i) == lying(s.ground.slots, i) + if i == item {
                qty as int
            } else {
                0
            } by {
            lemma_lying_update(s.ground.slots, f, g, i);
        }
        assert(free_ok(r.free, r.alive())) by {
            assert forall|j: int| 0 <= j < r.free.len() implies !r.alive()[#[trigger] r.free[j] as int] by {
                assert(s.ground.free[j] != s.ground.free[n]);
                assert(!s.ground.alive()[s.ground.free[j] as int]);
            }
        }
    } else {
        let g = GroundV {
            alive: true,
            gen: s.ground.next_gen(),
            x: x as i16,
            y: y as i16,
            item,
            qty,
        };
        assert(r.slots == s.ground.slots.push(g));
        assert forall|i: Seq<char>| #[trigger]
            lying(r.slots, i) == lying(s.ground.slots, i) + if i == item {
                qty as int
            } else {
                0
            } by {
            assert(r.slots.drop_last() =~= s.ground.slots);
        }
    }
}

/// An item that a player drops goes from its inventory to the ground.
pub proof fn law_drop_moves_one(s: SimV, pid: u16, slot: usize)
    requires
        s.has(pid),
        slot < INV_SIZE,
        s.p(pid).inv.len() == INV_SIZE,
        sound(s.p(pid).inv),
        ground_sound(s.ground),
        s.p(pid).inv[slot as int].item.len() > 0,
        s.p(pid).inv[slot as int].qty > 0,
        lying(s.ground.slots, s.p(pid).inv[slot as int].item) < i32::MAX,
    ensures
        forall|i: Seq<char>|
            i.len() > 0 ==> #[trigger] total(s.drop_one(pid, slot).p(pid).inv, i) == total(
                s.p(pid).inv,
                i,
            ) - if i == s.p(pid).inv[slot as int].item {
                1int
            } else {
                0
            },
        forall|i: Seq<char>| #[trigger]
            lying(s.drop_one(pid, slot).ground.slots, i) == lying(s.ground.slots, i) + if i == s.p(
                pid,
            ).inv[slot as int].item {
                1int
            } else {
                0
            },
{
    let p = s.p(pid);
    let c = p.inv[slot as int];
    let left = slot_left(c, (c.qty - 1) as i32);
    let inv = p.inv.update(slot as int, left);
    let t = s.put(
        pid,
        PlayerV { inv, ..p }.said("You drop "@ + crate::defs::item_label(c.item) + "."@),
    );
    law_dropped_lies_there(t, p.x as i32, p.y as i32, c.item, 1);
    let r = s.drop_one(pid, slot);
    assert(r.players == t.players);
    assert forall|i: Seq<char>| i.len() > 0 implies #[trigger] total(r.p(pid).inv, i) == total(
        p.inv,
        i,
    ) - if i == c.item {
        1int
    } else {
        0
    } by {
        lemma_total_update(p.inv, slot as int, left, i);
    }
}

/// The tools in the shop have names, none of them is the coin, and none is free.
proof fn lemma_tools_named(item: Seq<char>)
    requires
        shop_price(item) is Some,
    ensures
        item.len() > 0,
        item != "coins"@,
        0 < shop_price(item).unwrap(),
{
    reveal_strlit("coins");
    reveal_strlit("bronze_axe");
    reveal_strlit("iron_axe");
    reveal_strlit("steel_axe");
    reveal_strlit("cobalt_axe");
    reveal_strlit("bronze_pickaxe");
    reveal_strlit("iron_pickaxe");
    reveal_strlit("steel_pickaxe");
    reveal_strlit("cobalt_pickaxe");
    let t = tools_table();
    lemma_first_at(t, tool_named(item), 0);
    let k = first_at(t, tool_named(item), 0);
    assert(tool_named(item)(t[k]));
    assert(t[k].item@.len() > 5);
    assert("coins"@.len() == 5);
}

/// A purchase costs the price and brings the tool; where the tool finds no room, or there
/// are not enough coins, there is of everything as much as before.
pub proof fn law_purchase(s: SimV, pid: u16, item: Seq<char>)
    requires
        s.has(pid),
        s.near(pid, is_trader()),
        shop_price(item) is Some,
        sound(s.p(pid).inv),
        total(s.p(pid).inv, "coins"@) <= i32::MAX,
        !has_item(s.p(pid).inv, item),
    ensures
        ({
            let before = s.p(pid).inv;
            let after = s.buy(pid, item).p(pid).inv;
            let price = shop_price(item).unwrap();
            if price <= total(before, "coins"@) && fits(paid(before, price, 0), item) {
                &&& total(after, "coins"@) == total(before, "coins"@) - price
                &&& total(before, item) == 0
                &&& total(after, item) == 1
                &&& forall|i: Seq<char>|
                    i.len() > 0 && i != item && i != "coins"@ ==> #[trigger] total(after, i)
                        == total(before, i)
            } else {
                forall|i: Seq<char>|
                    i.len() > 0 ==> #[trigger] total(after, i) == total(before, i)
            }
        }),
{
    reveal_strlit("coins");
    let before = s.p(pid).inv;
    let price = shop_price(item).unwrap();
    lemma_tools_named(item);
    lemma_not_held(before, item);
    law_count_is_total(before, "coins"@);
    if price <= total(before, "coins"@) {
        law_payment_takes_coins(before, price);
        let rest = paid(before, price, 0);
        assert(total(rest, item) == 0);
        if fits(rest, item) {
            law_add_adds(rest, item, 1);
            assert(total(added(rest, item, 1), "coins"@) == total(rest, "coins"@));
        } else {
            law_add_adds(rest, "coins"@, price);
        }
    }
}

/// A sale takes the whole slot and brings its price in coins.
pub proof fn law_sale(s: SimV, pid: u16, slot: usize)
    requires
        s.has(pid),
        s.near(pid, is_trader()),
        slot < INV_SIZE,
        s.p(pid).inv.len() == INV_SIZE,
        sound(s.p(pid).inv),
        s.p(pid).inv[slot as int].item.len() > 0,
        s.p(pid).inv[slot as int].item != "coins"@,
        item_price(s.p(pid).inv[slot as int].item) is Some,
        ({
            let sold = s.p(pid).inv[slot as int];
            let gp = item_price(sold.item).unwrap() * sold.qty;
            0 <= gp && total(s.p(pid).inv, "coins"@) + gp <= i32::MAX
        }),
    ensures
        ({
            let before = s.p(pid).inv;
            let after = s.sell(pid, slot).p(pid).inv;
            let sold = before[slot as int];
            let gp = item_price(sold.item).unwrap() * sold.qty;
            &&& total(after, "coins"@) == total(before, "coins"@) + gp
            &&& total(after, sold.item) == total(before, sold.item) - sold.qty
            &&& forall|i: Seq<char>|
                i.len() > 0 && i != sold.item && i != "coins"@ ==> #[trigger] total(after, i)
                    == total(before, i)
        }),
{
    reveal_strlit("coins");
    let before = s.p(pid).inv;
    let sold = before[slot as int];
    let unit = item_price(sold.item).unwrap();
    let gp = unit * sold.qty;
    lemma_total_sound(before, "coins"@);
    let cleared = before.update(slot as int, free_slot());
    assert forall|i: Seq<char>| #[trigger]
        total(cleared, i) == total(before, i) - held(sold, i) + held(free_slot(), i) by {
        lemma_total_update(before, slot as int, free_slot(), i);
    }
    assert(unit.wrapping_mul(sold.qty) == gp);
    assert(slot_free()(cleared[slot as int]));
    lemma_room(cleared, "coins"@, slot as int);
    law_add_adds(cleared, "coins"@, gp as i32);
    let after = s.sell(pid, slot).p(pid).inv;
    assert(after == added(cleared, "coins"@, gp as i32));
    assert(total(after, sold.item) == total(cleared, sold.item));
}

/// What the blacksmith or the angler makes uses up just what it takes; where there is not
/// enough of it nothing changes.
pub proof fn law_making_uses_stuff(
    s: SimV,
    pid: u16,
    item: Seq<char>,
    stuff: Seq<char>,
    qty: i32,
    missing: Seq<char>,
    done: Seq<char>,
)
    requires
        s.has(pid),
        sound(s.p(pid).inv),
        item.len() > 0,
        stuff.len() > 0,
        item != stuff,
        0 < qty,
        total(s.p(pid).inv, stuff) <= i32::MAX,
        total(s.p(pid).inv, item) < i32::MAX,
    ensures
        ({
            let before = s.p(pid).inv;
            let after = s.made(pid, item, stuff, qty, missing, done).p(pid).inv;
            if total(before, stuff) < qty {
                after == before
            } else if fits(deducted(before, stuff, qty), item) {
                &&& total(after, stuff) == total(before, stuff) - qty
                &&& total(after, item) == total(before, item) + 1
                &&& forall|i: Seq<char>|
                    i.len() > 0 && i != item && i != stuff ==> #[trigger] total(after, i) == total(
                        before,
                        i,
                    )
            } else {
                forall|i: Seq<char>|
                    i.len() > 0 ==> #[trigger] total(after, i) == total(before, i)
            }
        }),
{
    reveal(SimV::made);
    let before = s.p(pid).inv;
    law_count_is_total(before, stuff);
    law_deduct_takes(before, stuff, qty);
    if qty <= total(before, stuff) {
        let rest = deducted(before, stuff, qty);
        assert(total(rest, item) == total(before, item));
        if fits(rest, item) {
            law_add_adds(rest, item, 1);
            assert(total(added(rest, item, 1), stuff) == total(rest, stuff));
        } else {
            lemma_added_times(rest, stuff, qty as int);
        }
    }
}

proof fn lemma_added_times(inv: Seq<SlotV>, item: Seq<char>, n: int)
    requires
        sound(inv),
        item.len() > 0,
        fits(inv, item),
        total(inv, item) + n <= i32::MAX,
    ensures
        sound(added_times(inv, item, n)),
        fits(added_times(inv, item, n), item),
        n >= 0 ==> total(added_times(inv, item, n), item) == total(inv, item) + n,
        others_kept(inv, added_times(inv, item, n), item),
    decreases n,
{
    if n > 0 {
        lemma_added_times(inv, item, n - 1);
        let m = added_times(inv, item, n - 1);
        law_add_adds(m, item, 1);
        let r = added_times(inv, item, n);
        lemma_still_fits(m, item, 1);
        assert forall|other: Seq<char>| other.len() > 0 && other != item implies #[trigger] total(
            r,
            other,
        ) == total(inv, other) by {
            assert(total(m, other) == total(inv, other));
        }
    }
}

proof fn lemma_still_fits(inv: Seq<SlotV>, item: Seq<char>, qty: i32)
    requires
        sound(inv),
        fits(inv, item),
        0 < qty,
        total(inv, item) + qty <= i32::MAX,
    ensures
        fits(added(inv, item, qty), item),
{
    lemma_first_at(inv, slot_with(item), 0);
    lemma_first_at(inv, slot_free(), 0);
    lemma_total_sound(inv, item);
    let k = first_at(inv, slot_with(item), 0);
    let n = first_at(inv, slot_free(), 0);
    let r = added(inv, item, qty);
    if k < inv.len() {
        assert(held(inv[k], item) <= total(inv, item));
        assert(slot_with(item)(r[k]));
        lemma_room(r, item, k);
    } else {
        assert(slot_with(item)(r[n]));
        lemma_room(r, item, n);
    }
}

/// Eating heals by what the meal is worth, at most to the greatest hit points, and uses up
/// one of the slot.
pub proof fn law_meal_heals(s: SimV, pid: u16, slot: usize)
    requires
        s.has(pid),
        slot < INV_SIZE,
        s.p(pid).inv.len() == INV_SIZE,
        s.p(pid).inv[slot as int].qty > 0,
        s.p(pid).hp_cur < s.p(pid).skills.hp <= i16::MAX,
        meal(s.p(pid).inv[slot as int].item) is Some,
    ensures
        ({
            let before = s.p(pid);
            let after = s.eat(pid, slot).p(pid);
            let eaten = before.inv[slot as int].item;
            &&& before.hp_cur < after.hp_cur <= before.skills.hp
            &&& after.hp_cur == before.skills.hp || after.hp_cur == before.hp_cur + meal(
                eaten,
            ).unwrap().0
            &&& forall|i: Seq<char>|
                i.len() > 0 ==> #[trigger] total(after.inv, i) == total(before.inv, i) - if i
                    == eaten {
                    1int
                } else {
                    0
                }
        }),
{
    let before = s.p(pid);
    let c = before.inv[slot as int];
    lemma_first_at(fish_table(), fish_with_fish(c.item), 0);
    let left = slot_left(c, (c.qty - 1) as i32);
    let after = s.eat(pid, slot).p(pid);
    assert(after.inv == before.inv.update(slot as int, left));
    assert forall|i: Seq<char>| i.len() > 0 implies #[trigger] total(after.inv, i) == total(
        before.inv,
        i,
    ) - if i == c.item {
        1int
    } else {
        0
    } by {
        lemma_total_update(before.inv, slot as int, left, i);
    }
}

/// Where two players carry a trade out, there is of every item as much with both together
/// as before, and neither is in a trade any more.
pub proof fn law_trade_conserves(s: SimV, a: u16, b: u16, item: Seq<char>)
    requires
        s.has(a),
        s.has(b),
        a != b,
        item.len() > 0,
        sound(s.p(a).inv),
        sound(s.p(b).inv),
        forall|i: Seq<char>| #[trigger] total(s.p(a).inv, i) + total(s.p(b).inv, i) <= i32::MAX,
    ensures
        total(s.complete_trade(a, b).p(a).inv, item) + total(
            s.complete_trade(a, b).p(b).inv,
            item,
        ) == total(s.p(a).inv, item) + total(s.p(b).inv, item),
        s.p(a).trade.partner == Some(b as u32) && s.p(b).trade.partner == Some(a as u32)
            && s.players.is_live(a as int) && s.players.is_live(b as int) ==> s.complete_trade(
            a,
            b,
        ).p(a).trade.partner is None && s.complete_trade(a, b).p(b).trade.partner is None,
{
    reveal(SimV::complete_trade);
    let (p, q) = (s.p(a), s.p(b));
    let from_a = offered(p.inv, p.trade.offer);
    let from_b = offered(q.inv, q.trade.offer);
    if p.trade.partner == Some(b as u32) && q.trade.partner == Some(a as u32) && offer_ok(
        p.inv,
        p.trade.offer,
    ) && offer_ok(q.inv, q.trade.offer) && can_receive(p.inv, from_b, p.trade.offer) && can_receive(
        q.inv,
        from_a,
        q.trade.offer,
    ) {
        law_exchange_conserves(p.inv, q.inv, p.trade.offer, q.trade.offer, item);
    }
}

/// A player that changes its offer undoes what was accepted and confirmed, on both sides.
pub proof fn law_new_offer_withdraws_consent(s: SimV, pid: u16, other: u16, slot: usize)
    requires
        s.has(pid),
        s.has(other),
        slot < INV_SIZE,
        s.players.is_live(pid as int),
        s.players.is_live(other as int),
        s.p(pid).trade.partner == Some(other as u32),
        s.p(pid).inv[slot as int].item.len() > 0,
    ensures
        ({
            let t = s.offer_slot(pid, slot);
            &&& !t.p(pid).trade.accepted && !t.p(pid).trade.confirmed
            &&& !t.p(other).trade.accepted && !t.p(other).trade.confirmed
            &&& t.p(pid).trade.stage == TradeStage::Offer
            &&& t.p(other).trade.stage == TradeStage::Offer
        }),
{
}

/// A player that leaves a trade is in none, and neither is a live partner that was in it.
pub proof fn law_leaving_ends_the_trade(s: SimV, pid: u16, line: Seq<char>)
    requires
        s.has(pid),
    ensures
        s.cancel_trade(pid, line).p(pid).trade.partner is None,
        s.p(pid).trade.partner matches Some(o) ==> (o < 0x1_0000 && s.players.is_live(o as int)
            && s.p(o as u16).trade.partner == Some(pid as u32) ==> s.cancel_trade(pid, line).p(
            o as u16,
        ).trade.partner is None),
        forall|k: int|
            0 <= k < s.players.slots.len() ==> (#[trigger] s.cancel_trade(
                pid,
                line,
            ).players.slots[k]).inv == s.players.slots[k].inv,
{
}

/// Confirming moves items only where the partner has confirmed too, both are at the
/// confirm stage and each is the partner of the other.
pub proof fn law_items_move_only_by_consent(s: SimV, pid: u16, other: u16)
    requires
        s.has(pid),
        s.has(other),
        pid != other,
        s.p(pid).trade.partner == Some(other as u32),
        s.confirm_trade(pid).p(pid).inv != s.p(pid).inv || s.confirm_trade(pid).p(other).inv != s.p(
            other,
        ).inv,
    ensures
        s.p(other).trade.confirmed,
        s.p(other).trade.partner == Some(pid as u32),
        s.p(pid).trade.stage == TradeStage::Confirm,
        s.p(other).trade.stage == TradeStage::Confirm,
        offer_ok(s.p(pid).inv, s.p(pid).trade.offer),
        offer_ok(s.p(other).inv, s.p(other).trade.offer),
{
    reveal(SimV::complete_trade);
}

proof fn lemma_removed(g: GroundsV, h: u16)
    requires
        ground_sound(g),
        h < g.slots.len(),
        g.slots[h as int].alive,
    ensures
        ground_sound(g.remove_entity(h)),
        forall|i: Seq<char>| #[trigger]
            lying(g.remove_entity(h).slots, i) == lying(g.slots, i) - lies_in(
                g.slots[h as int],
                i,
            ),
{
    let r = g.remove_entity(h);
    let dead = GroundV { alive: false, ..g.slots[h as int] };
    assert forall|i: Seq<char>| #[trigger]
        lying(r.slots, i) == lying(g.slots, i) - lies_in(g.slots[h as int], i) by {
        lemma_lying_update(g.slots, h as int, dead, i);
    }
    assert(free_ok(r.free, r.alive())) by {
        let n = g.free.len() as int;
        assert forall|j: int| 0 <= j < r.free.len() implies !r.alive()[#[trigger] r.free[j] as int] by {
            if j < n {
                assert(!g.alive()[g.free[j] as int]);
            }
        }
        assert forall|j: int, k: int| 0 <= j < k < r.free.len() implies r.free[j] != r.free[k] by {
            if k == n {
                assert(!g.alive()[g.free[j] as int]);
                assert(g.alive()[h as int]);
            }
        }
    }
}

/// How much of an item a player and the ground have together.
pub open spec fn with_ground(s: SimV, pid: u16, item: Seq<char>) -> int {
    total(s.p(pid).inv, item) + lying(s.ground.slots, item)
}

proof fn lemma_pick_up(s: SimV, pid: u16, ids: Seq<u16>, n: int)
    requires
        s.has(pid),
        0 <= n <= ids.len(),
        sound(s.p(pid).inv),
        ground_sound(s.ground),
        forall|j: int|
            0 <= j < ids.len() ==> (#[trigger] ids[j]) < s.ground.slots.len()
                && s.ground.slots[ids[j] as int].alive,
        forall|j: int, k: int| 0 <= j < k < ids.len() ==> ids[j] != ids[k],
        forall|i: Seq<char>| #[trigger] with_ground(s, pid, i) <= i32::MAX,
    ensures
        s.pick_up(pid, ids, n).0.has(pid),
        sound(s.pick_up(pid, ids, n).0.p(pid).inv),
        ground_sound(s.pick_up(pid, ids, n).0.ground),
        forall|i: Seq<char>|
            i.len() > 0 ==> #[trigger] with_ground(s.pick_up(pid, ids, n).0, pid, i) == with_ground(
                s,
                pid,
                i,
            ),
        forall|j: int|
            n <= j < ids.len() ==> (#[trigger] ids[j]) < s.pick_up(pid, ids, n).0.ground.slots.len()
                && s.pick_up(pid, ids, n).0.ground.slots[ids[j] as int].alive,
    decreases n,
{
    if n > 0 {
        lemma_pick_up(s, pid, ids, n - 1);
        let (t, full) = s.pick_up(pid, ids, n - 1);
        let h = ids[n - 1];
        let g = t.ground.slots[h as int];
        assert(g.alive);
        lemma_removed(t.ground, h);
        let t1 = SimV { ground: t.ground.remove_entity(h), ..t };
        let p = t.p(pid);
        assert(with_ground(t, pid, g.item) == with_ground(s, pid, g.item));
        assert(with_ground(s, pid, g.item) <= i32::MAX);
        lemma_lying_sound(t.ground.slots, g.item);
        lemma_total_sound(p.inv, g.item);
        assert(lies_in(g, g.item) <= lying(t.ground.slots, g.item));
        assert(lying(t1.ground.slots, g.item) == lying(t.ground.slots, g.item) - g.qty);
        let r = s.pick_up(pid, ids, n).0;
        if !full && fits(p.inv, g.item) {
            law_add_adds(p.inv, g.item, g.qty);
            let inv = added(p.inv, g.item, g.qty);
            assert(r.p(pid).inv == inv);
            assert(r.ground == t1.ground);
            assert forall|i: Seq<char>| i.len() > 0 implies #[trigger] with_ground(r, pid, i)
                == with_ground(s, pid, i) by {
                assert(with_ground(t, pid, i) == with_ground(s, pid, i));
                assert(i != g.item ==> total(inv, i) == total(p.inv, i));
                assert(lying(t1.ground.slots, i) == lying(t.ground.slots, i) - lies_in(g, i));
            }
        } else {
            law_dropped_lies_there(t1, g.x as i32, g.y as i32, g.item, g.qty);
            assert forall|i: Seq<char>| i.len() > 0 implies #[trigger] with_ground(r, pid, i)
                == with_ground(s, pid, i) by {
                assert(with_ground(t, pid, i) == with_ground(s, pid, i));
                assert(lying(t1.ground.slots, i) == lying(t.ground.slots, i) - lies_in(g, i));
                assert(lying(r.ground.slots, i) == lying(t1.ground.slots, i) + if i == g.item {
                    g.qty as int
                } else {
                    0
                });
            }
        }
        assert forall|j: int| n <= j < ids.len() implies (#[trigger] ids[j]) < r.ground.slots.len()
            && r.ground.slots[ids[j] as int].alive by {
            assert(ids[j] != ids[n - 1]);
            assert(t.ground.slots[ids[j] as int].alive);
            assert(t1.ground.slots[ids[j] as int].alive);
        }
    }
}

pub proof fn lemma_live_once(alive: Seq<bool>, n: int)
    requires
        0 <= n <= alive.len(),
        n <= 0x1_0000,
    ensures
        forall|j: int|
            0 <= j < live_below(alive, n).len() ==> (#[trigger] live_below(alive, n)[j]) < n
                && alive[live_below(alive, n)[j] as int],
        forall|j: int, k: int|
            0 <= j < k < live_below(alive, n).len() ==> live_below(alive, n)[j] != live_below(
                alive,
                n,
            )[k],
    decreases n,
{
    if n > 0 {
        lemma_live_once(alive, n - 1);
        let d = live_below(alive, n - 1);
        let r = live_below(alive, n);
        assert forall|j: int| 0 <= j < r.len() implies (#[trigger] r[j]) < n && alive[r[j] as int] by {
            if j < d.len() {
                assert(r[j] == d[j]);
            }
        }
        assert forall|j: int, k: int| 0 <= j < k < r.len() implies r[j] != r[k] by {
            assert(r[j] == d[j]);
            if k < d.len() {
                assert(r[k] == d[k]);
            }
        }
    }
}

pub proof fn lemma_lying_at(slots: Seq<GroundV>, ids: Seq<u16>, x: i32, y: i32)
    ensures
        lying_at(slots, ids, x, y).len() <= ids.len(),
        forall|j: int|
            0 <= j < lying_at(slots, ids, x, y).len() ==> ids.contains(
                #[trigger] lying_at(slots, ids, x, y)[j],
            ),
        (forall|j: int, k: int| 0 <= j < k < ids.len() ==> ids[j] != ids[k]) ==> forall|
            j: int,
            k: int,
        |
            0 <= j < k < lying_at(slots, ids, x, y).len() ==> lying_at(slots, ids, x, y)[j]
                != lying_at(slots, ids, x, y)[k],
    decreases ids.len(),
{
    if ids.len() > 0 {
        let d = ids.drop_last();
        lemma_lying_at(slots, d, x, y);
        let r = lying_at(slots, ids, x, y);
        let q = lying_at(slots, d, x, y);
        assert forall|j: int| 0 <= j < r.len() implies ids.contains(#[trigger] r[j]) by {
            if j < q.len() {
                assert(d.contains(q[j]));
                let m = choose|m: int| 0 <= m < d.len() && d[m] == q[j];
                assert(ids[m] == r[j]);
            } else {
                assert(ids[ids.len() - 1] == r[j]);
            }
        }
        if forall|j: int, k: int| 0 <= j < k < ids.len() ==> ids[j] != ids[k] {
            assert forall|j: int, k: int| 0 <= j < k < r.len() implies r[j] != r[k] by {
                if k == q.len() {
                    assert(d.contains(q[j]));
                    let m = choose|m: int| 0 <= m < d.len() && d[m] == q[j];
                    assert(ids[m] != ids[ids.len() - 1]);
                }
            }
        }
    }
}

/// Picking things up loses nothing: what a player and the ground have together stays the
/// same, whether there was room for all of it or not.
pub proof fn law_pickup_conserves(s: SimV, pid: u16, t: (i32, i32), item: Seq<char>)
    requires
        s.has(pid),
        item.len() > 0,
        sound(s.p(pid).inv),
        ground_sound(s.ground),
        s.ground.slots.len() <= 0x1_0000,
        forall|i: Seq<char>| #[trigger] with_ground(s, pid, i) <= i32::MAX,
    ensures
        with_ground(s.pickup(pid, t), pid, item) == with_ground(s, pid, item),
{
    let ids = s.stacks_on(t.0, t.1);
    let live = s.ground.live();
    lemma_live_once(s.ground.alive(), s.ground.slots.len() as int);
    lemma_lying_at(s.ground.slots, live, t.0, t.1);
    let u = s.rest(pid);
    assert(u.p(pid).inv == s.p(pid).inv);
    assert forall|i: Seq<char>| #[trigger] with_ground(u, pid, i) <= i32::MAX by {
        assert(with_ground(s, pid, i) <= i32::MAX);
    }
    assert forall|j: int| 0 <= j < ids.len() implies (#[trigger] ids[j]) < u.ground.slots.len()
        && u.ground.slots[ids[j] as int].alive by {
        assert(live.contains(ids[j]));
        let m = choose|m: int| 0 <= m < live.len() && live[m] == ids[j];
        assert(s.ground.alive()[live[m] as int]);
    }
    lemma_pick_up(u, pid, ids, ids.len() as int);
    assert(with_ground(u.pick_up(pid, ids, ids.len() as int).0, pid, item) == with_ground(
        u,
        pid,
        item,
    ));
    assert(with_ground(u, pid, item) == with_ground(s, pid, item));
}

/// Whether an item stands in a place of the equipment, as a count.
pub open spec fn worn_at(worn: Seq<char>, item: Seq<char>) -> int {
    if worn == item {
        1
    } else {
        0
    }
}

/// How many of an item are worn.
pub open spec fn worn(e: EquipV, item: Seq<char>) -> int {
    worn_at(e.helmet, item) + worn_at(e.chest, item) + worn_at(e.legs, item) + worn_at(
        e.left_hand,
        item,
    ) + worn_at(e.right_hand, item)
}

/// How much of an item a player has, in its inventory and on its body, together with what
/// lies on the ground.
pub open spec fn about(s: SimV, pid: u16, item: Seq<char>) -> int {
    total(s.p(pid).inv, item) + worn(s.p(pid).equipment, item) + lying(s.ground.slots, item)
}

/// What is worn at one place changes the count by that place alone.
proof fn lemma_worn_with(e: EquipV, place: Seq<char>, item: Seq<char>, i: Seq<char>)
    requires
        is_equip_slot(place),
    ensures
        worn(e.with(place, item), i) == worn(e, i) - worn_at(e.at(place), i) + worn_at(item, i),
{
}

/// An item that goes back into the inventory, or to the ground where there is no room,
/// is there once more.
proof fn lemma_put_back(s: SimV, pid: u16, item: Seq<char>)
    requires
        s.has(pid),
        item.len() > 0,
        sound(s.p(pid).inv),
        ground_sound(s.ground),
        total(s.p(pid).inv, item) < i32::MAX,
        lying(s.ground.slots, item) < i32::MAX,
    ensures
        forall|i: Seq<char>|
            i.len() > 0 ==> #[trigger] about(s.put_back(pid, item), pid, i) == about(s, pid, i)
                + worn_at(item, i),
{
    let p = s.p(pid);
    let r = s.put_back(pid, item);
    law_add_adds(p.inv, item, 1);
    if fits(p.inv, item) {
        assert forall|i: Seq<char>| i.len() > 0 implies #[trigger] about(r, pid, i) == about(
            s,
            pid,
            i,
        ) + worn_at(item, i) by {
            assert(r.p(pid).inv == added(p.inv, item, 1));
            assert(i != item ==> total(added(p.inv, item, 1), i) == total(p.inv, i));
        }
    } else {
        let t = s.dropped(p.x as i32, p.y as i32, item, 1);
        law_dropped_lies_there(s, p.x as i32, p.y as i32, item, 1);
        assert forall|i: Seq<char>| i.len() > 0 implies #[trigger] about(r, pid, i) == about(
            s,
            pid,
            i,
        ) + worn_at(item, i) by {
            assert(r.ground == t.ground);
            assert(lying(t.ground.slots, i) == lying(s.ground.slots, i) + if i == item {
                1int
            } else {
                0
            });
        }
    }
}

/// Taking something off loses nothing: what was worn is in the inventory or on the ground.
pub proof fn law_unequip_conserves(s: SimV, pid: u16, place: Seq<char>, item: Seq<char>)
    requires
        s.has(pid),
        item.len() > 0,
        sound(s.p(pid).inv),
        ground_sound(s.ground),
        forall|i: Seq<char>| #[trigger] total(s.p(pid).inv, i) < i32::MAX,
        forall|i: Seq<char>| #[trigger] lying(s.ground.slots, i) < i32::MAX,
    ensures
        about(s.unequip(pid, place), pid, item) == about(s, pid, item),
{
    let p = s.p(pid);
    let prev = p.equipment.at(place);
    if is_equip_slot(place) && prev.len() > 0 {
        let t = s.put(pid, PlayerV { equipment: p.equipment.with(place, Seq::empty()), ..p });
        assert(total(p.inv, prev) < i32::MAX);
        assert(lying(s.ground.slots, prev) < i32::MAX);
        lemma_put_back(t, pid, prev);
        lemma_worn_with(p.equipment, place, Seq::empty(), item);
        assert(about(t.put_back(pid, prev), pid, item) == about(t, pid, item) + worn_at(prev, item));
        assert(t.put_back(pid, prev).has(pid));
    }
}

/// Putting something on loses nothing: what was worn before is in the inventory or on the
/// ground.
pub proof fn law_equip_conserves(s: SimV, pid: u16, slot: usize, item: Seq<char>)
    requires
        s.has(pid),
        item.len() > 0,
        s.p(pid).inv.len() == INV_SIZE,
        slot < INV_SIZE,
        s.p(pid).inv[slot as int].qty > 0,
        sound(s.p(pid).inv),
        ground_sound(s.ground),
        forall|i: Seq<char>| #[trigger] total(s.p(pid).inv, i) < i32::MAX,
        forall|i: Seq<char>| #[trigger] lying(s.ground.slots, i) < i32::MAX,
    ensures
        about(s.equip(pid, slot), pid, item) == about(s, pid, item),
{
    let p = s.p(pid);
    let c = p.inv[slot as int];
    if c.item.len() > 0 && equip_place(c.item) is Some {
        let place = equip_place(c.item).unwrap();
        lemma_equip_place(c.item);
        let prev = p.equipment.at(place);
        let left = if c.qty > 1 {
            SlotV { qty: (c.qty - 1) as i32, ..c }
        } else {
            free_slot()
        };
        let inv = p.inv.update(slot as int, left);
        let t = s.put(
            pid,
            PlayerV { inv, equipment: p.equipment.with(place, c.item), ..p },
        );
        assert forall|i: Seq<char>| #[trigger]
            total(inv, i) == total(p.inv, i) - held(c, i) + held(left, i) by {
            lemma_total_update(p.inv, slot as int, left, i);
        }
        lemma_worn_with(p.equipment, place, c.item, item);
        assert(about(t, pid, item) == about(s, pid, item) - worn_at(prev, item));
        if prev.len() > 0 {
            assert(total(p.inv, prev) < i32::MAX);
            assert(lying(s.ground.slots, prev) < i32::MAX);
            assert(sound(inv));
            lemma_put_back(t, pid, prev);
            assert(about(t.put_back(pid, prev), pid, item) == about(t, pid, item) + worn_at(
                prev,
                item,
            ));
            assert(t.put_back(pid, prev).has(pid));
        }
    }
}

/// What is put on has its place among the five.
proof fn lemma_equip_place(item: Seq<char>)
    requires
        equip_place(item) is Some,
    ensures
        is_equip_slot(equip_place(item).unwrap()),
{
    lemma_first_at(armors_table(), armor_named(item), 0);
}

} // verus!
