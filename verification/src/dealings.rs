//! What players do with each other and with those who deal: trades, clicks, what lies about,
//! prices, and how players come and go.

use vstd::prelude::*;
use crate::belongings::{lemma_live_once, lemma_lying_at};
use crate::defs::{
    armor_bonus, armor_of, armor_price, fish_by_rod, item_price, rock_of_item, sell_price,
    shop_price, sword_of, sword_price, tool_of, tree_of_item, weapon_bonus,
};
use crate::footing::{firm, no_creature, no_player};
use crate::inventory::{best_tool_of, can_receive, fits, offered, owned_rod, worth};
use crate::ledger::{law_exchange_conserves, sound, total};
use crate::pools::{law_live_ids_are_live, GroundV, PlayerV};
use crate::search::{first_at, lemma_first_at};
use crate::sim::{
    is_angel, is_angler, is_blacksmith, is_trader, lemma_cell, lying_at, mob_at, player_at, SimV,
};
use crate::tick::derived;
use crate::types::{closed_ui, starter_skills, Intent, Obj, Tile, TradeStage, UiState};

verus! {

/// Whether two live players trade with each other.
pub open spec fn trading(s: SimV, a: u16, b: u16) -> bool {
    &&& a != b
    &&& a < s.players.slots.len()
    &&& b < s.players.slots.len()
    &&& s.players.slots[a as int].alive
    &&& s.players.slots[b as int].alive
    &&& s.players.slots[a as int].trade.partner == Some(b as u32)
    &&& s.players.slots[b as int].trade.partner == Some(a as u32)
}

/// A trade begins once both have asked: after the first asked the other is told of it, and nobody
/// trades for it; after the second asked too they trade with each other, with nothing offered
/// or agreed to.
pub proof fn law_trades_begin_when_both_asked(s: SimV, a: u16, b: u16)
    requires
        a != b,
        s.players.slots.len() <= 0x1_0000,
        s.players.is_live(a as int),
        s.players.is_live(b as int),
        s.p(a).trade.request_from != Some(b as u32),
    ensures
        ({
            let one = s.request_trade(a, b);
            &&& one.p(b).trade.request_from == Some(a as u32)
            &&& one.p(a).trade.partner == s.p(a).trade.partner
            &&& one.p(b).trade.partner == s.p(b).trade.partner
            &&& one.p(b).private_chat.len() == s.p(b).private_chat.len() + 1
            &&& one.p(b).private_chat.last().text == s.p(a).name + " wishes to trade with you."@
            &&& one.p(a).private_chat == s.p(a).private_chat
            &&& one.chat == s.chat
        }),
        s.p(a).trade.partner is None && s.p(b).trade.partner is None ==> {
            let two = s.request_trade(a, b).request_trade(b, a);
            &&& trading(two, a, b)
            &&& two.p(a).trade.offer.len() == 0 && two.p(b).trade.offer.len() == 0
            &&& !two.p(a).trade.accepted && !two.p(b).trade.accepted
            &&& !two.p(a).trade.confirmed && !two.p(b).trade.confirmed
            &&& two.p(a).trade.stage == TradeStage::Offer
            &&& two.p(b).trade.stage == TradeStage::Offer
            &&& two.p(a).inv == s.p(a).inv && two.p(b).inv == s.p(b).inv
        },
{
}

/// One who accepts alone waits; once both have accepted both are asked to confirm, and the
/// offers and the things stay as they are.
pub proof fn law_both_must_accept(s: SimV, a: u16, b: u16)
    requires
        trading(s, a, b),
        !s.p(b).trade.accepted,
    ensures
        ({
            let one = s.accept_trade(a);
            let two = one.accept_trade(b);
            &&& one.p(a).trade.accepted && !one.p(b).trade.accepted
            &&& one.p(a).trade.stage == s.p(a).trade.stage
            &&& one.p(b).trade.stage == s.p(b).trade.stage
            &&& two.p(a).trade.stage == TradeStage::Confirm
            &&& two.p(b).trade.stage == TradeStage::Confirm
            &&& !two.p(a).trade.confirmed && !two.p(b).trade.confirmed
            &&& trading(two, a, b)
            &&& two.p(a).trade.offer == s.p(a).trade.offer
            &&& two.p(b).trade.offer == s.p(b).trade.offer
            &&& two.p(a).inv == s.p(a).inv && two.p(b).inv == s.p(b).inv
        }),
{
}

/// A slot that holds something goes into the offer when it is chosen and comes out when it is
/// chosen again.
pub proof fn law_offers_are_chosen(s: SimV, a: u16, b: u16, slot: usize)
    requires
        trading(s, a, b),
        slot < 28,
        s.p(a).inv[slot as int].item.len() > 0,
    ensures
        s.offer_slot(a, slot).p(a).trade.offer.contains(slot) == !s.p(a).trade.offer.contains(slot),
        !s.p(a).trade.offer.contains(slot) ==> s.offer_slot(a, slot).p(a).trade.offer == s.p(
            a,
        ).trade.offer.push(slot),
        s.offer_slot(a, slot).p(b).trade.offer == s.p(b).trade.offer,
        s.offer_slot(a, slot).p(a).inv == s.p(a).inv,
{
    let o = s.p(a).trade.offer;
    lemma_without(o, slot);
    if !o.contains(slot) {
        assert(o.push(slot)[o.len() as int] == slot);
    }
}

proof fn lemma_without(o: Seq<usize>, x: usize)
    ensures
        !crate::trade::without(o, x).contains(x),
    decreases o.len(),
{
    if o.len() > 0 {
        let d = o.drop_last();
        lemma_without(d, x);
        let w = crate::trade::without(d, x);
        if o.last() != x {
            assert forall|k: int| 0 <= k < w.push(o.last()).len() implies w.push(o.last())[k] != x by {
                if k < w.len() {
                    assert(w.contains(w[k]));
                }
            }
        }
    }
}

/// When the second of two partners confirms and the offers still stand and find room, each
/// gives what it offered and gets what the other offered, of every item, and the trade is over.
/// A confirmation alone moves nothing.
pub proof fn law_offers_change_hands(s: SimV, a: u16, b: u16, item: Seq<char>)
    requires
        trading(s, a, b),
        s.p(a).trade.stage == TradeStage::Confirm,
        s.p(b).trade.stage == TradeStage::Confirm,
        sound(s.p(a).inv),
        sound(s.p(b).inv),
        item.len() > 0,
        forall|i: Seq<char>| #[trigger] total(s.p(a).inv, i) + total(s.p(b).inv, i) <= i32::MAX,
        can_receive(
            s.p(a).inv,
            offered(s.p(b).inv, s.p(b).trade.offer),
            s.p(a).trade.offer,
        ),
        can_receive(
            s.p(b).inv,
            offered(s.p(a).inv, s.p(a).trade.offer),
            s.p(b).trade.offer,
        ),
    ensures
        ({
            let t = s.confirm_trade(a);
            let from_a = total(offered(s.p(a).inv, s.p(a).trade.offer), item);
            let from_b = total(offered(s.p(b).inv, s.p(b).trade.offer), item);
            if s.p(b).trade.confirmed {
                &&& total(t.p(a).inv, item) == total(s.p(a).inv, item) - from_a + from_b
                &&& total(t.p(b).inv, item) == total(s.p(b).inv, item) - from_b + from_a
                &&& t.p(a).trade.partner is None
                &&& t.p(b).trade.partner is None
            } else {
                &&& t.p(a).inv == s.p(a).inv
                &&& t.p(b).inv == s.p(b).inv
                &&& t.p(a).trade.confirmed
                &&& trading(t, a, b)
            }
        }),
{
    reveal(SimV::complete_trade);
    let (p, q) = (s.p(a), s.p(b));
    assert forall|i: Seq<char>| #[trigger] total(q.inv, i) + total(p.inv, i) <= i32::MAX by {
        assert(total(p.inv, i) + total(q.inv, i) <= i32::MAX);
    }
    law_exchange_conserves(p.inv, q.inv, p.trade.offer, q.trade.offer, item);
    law_exchange_conserves(q.inv, p.inv, q.trade.offer, p.trade.offer, item);
}

/// Whether an offset of at most one from a player leads to a cell with such an object.
pub open spec fn beside_such(s: SimV, pid: u16, dx: int, dy: int, o: Obj) -> bool {
    let p = s.players.slots[pid as int];
    &&& -1 <= dx <= 1
    &&& -1 <= dy <= 1
    &&& 0 <= p.x + dx < s.w
    &&& 0 <= p.y + dy < s.h
    &&& s.objects[(p.y + dy) * s.w + (p.x + dx)] == o
}

/// Whoever deals is near exactly where a cell on or next to that of the player holds it.
pub proof fn law_who_is_near(s: SimV, pid: u16)
    requires
        s.grid_ok(),
    ensures
        s.near(pid, is_trader()) <==> exists|dx: int, dy: int| #[trigger]
            beside_such(s, pid, dx, dy, Obj::Trader),
        s.near(pid, is_blacksmith()) <==> exists|dx: int, dy: int| #[trigger]
            beside_such(s, pid, dx, dy, Obj::Blacksmith),
        s.near(pid, is_angler()) <==> exists|dx: int, dy: int| #[trigger]
            beside_such(s, pid, dx, dy, Obj::Angler),
        s.near(pid, is_angel()) <==> exists|dx: int, dy: int| #[trigger]
            beside_such(s, pid, dx, dy, Obj::Angel),
{
    assert forall|dx: int, dy: int| #[trigger]
        s.near_at(pid, is_trader(), dx, dy) == beside_such(s, pid, dx, dy, Obj::Trader) by {
        lemma_beside(s, pid, dx, dy);
    }
    assert forall|dx: int, dy: int| #[trigger]
        s.near_at(pid, is_blacksmith(), dx, dy) == beside_such(s, pid, dx, dy, Obj::Blacksmith) by {
        lemma_beside(s, pid, dx, dy);
    }
    assert forall|dx: int, dy: int| #[trigger]
        s.near_at(pid, is_angler(), dx, dy) == beside_such(s, pid, dx, dy, Obj::Angler) by {
        lemma_beside(s, pid, dx, dy);
    }
    assert forall|dx: int, dy: int| #[trigger]
        s.near_at(pid, is_angel(), dx, dy) == beside_such(s, pid, dx, dy, Obj::Angel) by {
        lemma_beside(s, pid, dx, dy);
    }
    assert forall|dx: int, dy: int| #[trigger]
        beside_such(s, pid, dx, dy, Obj::Trader) implies s.near_at(pid, is_trader(), dx, dy) by {}
    assert forall|dx: int, dy: int| #[trigger]
        beside_such(s, pid, dx, dy, Obj::Blacksmith) implies s.near_at(
        pid,
        is_blacksmith(),
        dx,
        dy,
    ) by {}
    assert forall|dx: int, dy: int| #[trigger]
        beside_such(s, pid, dx, dy, Obj::Angler) implies s.near_at(pid, is_angler(), dx, dy) by {}
    assert forall|dx: int, dy: int| #[trigger]
        beside_such(s, pid, dx, dy, Obj::Angel) implies s.near_at(pid, is_angel(), dx, dy) by {}
}

proof fn lemma_beside(s: SimV, pid: u16, dx: int, dy: int)
    requires
        s.grid_ok(),
    ensures
        s.beside(pid, dx, dy) ==> s.obj_beside(pid, dx, dy) == s.objects[(s.p(pid).y + dy) * s.w + (
        s.p(pid).x + dx)],
{
    if s.beside(pid, dx, dy) {
        lemma_cell(s, (s.p(pid).x + dx) as i32, (s.p(pid).y + dy) as i32);
    }
}

/// Without the one who deals nearby nothing is bought, sold, forged, got for logs or sacrificed.
pub proof fn law_deals_need_the_dealer(s: SimV, pid: u16, item: Seq<char>, slot: usize)
    requires
        s.has(pid),
    ensures
        !s.near(pid, is_trader()) ==> s.buy(pid, item).p(pid).inv == s.p(pid).inv && s.sell(
            pid,
            slot,
        ).p(pid).inv == s.p(pid).inv,
        !s.near(pid, is_blacksmith()) ==> s.forge(pid, item).p(pid).inv == s.p(pid).inv,
        !s.near(pid, is_angler()) ==> s.angler_buy(pid, item).p(pid).inv == s.p(pid).inv,
        !s.near(pid, is_angel()) ==> s.sacrifice(pid).p(pid).inv == s.p(pid).inv && s.sacrifice(
            pid,
        ).p(pid).skills == s.p(pid).skills,
{
}

/// A sacrifice takes the whole inventory and all levels, and gives one angel point for each
/// thousand coins of worth; what is worn and the points from before stay.
pub proof fn law_sacrifices(s: SimV, pid: u16)
    requires
        s.has(pid),
        s.near(pid, is_angel()),
        0 <= s.p(pid).skills.angel_points,
        0 <= worth(s.p(pid).inv) <= 1_000_000_000_000,
        s.p(pid).skills.angel_points + worth(s.p(pid).inv) / 1000 <= i32::MAX,
    ensures
        ({
            let (p, q) = (s.p(pid), s.sacrifice(pid).p(pid));
            &&& q.skills.angel_points == p.skills.angel_points + worth(p.inv) / 1000
            &&& q.skills == (crate::types::Skills {
                angel_points: q.skills.angel_points,
                ..starter_skills()
            })
            &&& q.inv.len() == 28
            &&& forall|k: int| 0 <= k < 28 ==> (#[trigger] q.inv[k]).item.len() == 0
            &&& q.equipment == p.equipment
            &&& q.hp_cur == q.skills.hp
            &&& (q.x, q.y, q.name) == (p.x, p.y, p.name)
        }),
{
}

/// What things cost: a tool is worth what the shop asks for it, armour and swords the ore that
/// they are made of, and a rod ten of its logs.
pub proof fn law_prices(item: Seq<char>)
    ensures
        tool_of(item) matches Some(d) ==> item_price(item) == Some(d.buy) && shop_price(item)
            == Some(d.buy),
        tool_of(item) is None ==> shop_price(item) is None,
        armor_of(item) matches Some(d) ==> (sell_price(d.ore@) matches Some(unit) ==> (0 <= unit
            * d.ore_qty <= 1_000_000 ==> armor_price(item) == Some((unit * d.ore_qty) as i32))),
        sword_of(item) matches Some(d) ==> (sell_price(d.ore@) matches Some(unit) ==> (0 <= unit
            * d.ore_qty <= 1_000_000 ==> sword_price(item) == Some((unit * d.ore_qty) as i32))),
        item == "berries"@ ==> sell_price(item) == Some(1i32),
        tree_of_item(item) matches Some(d) ==> item != "berries"@ && crate::defs::fish_by_fish(item)
            is None && fish_by_rod(item) is None ==> sell_price(item) == Some(d.sell),
        tree_of_item(item) is None ==> (rock_of_item(item) matches Some(d) ==> item != "berries"@
            && crate::defs::fish_by_fish(item) is None && fish_by_rod(item) is None ==> sell_price(
            item,
        ) == Some(d.sell)),
{
}

/// What a player is told of its things is what they are: the tiers of its best tools, that of its
/// highest rod and one more, and what its armour and its sword add.
pub proof fn law_derived(p: PlayerV)
    ensures
        best_tool_of(p.inv, "axe"@) matches Some(t) ==> derived(p).axe_tier == t.tier,
        best_tool_of(p.inv, "axe"@) is None ==> derived(p).axe_tier == 0,
        best_tool_of(p.inv, "pickaxe"@) matches Some(t) ==> derived(p).pickaxe_tier == t.tier,
        best_tool_of(p.inv, "pickaxe"@) is None ==> derived(p).pickaxe_tier == 0,
        owned_rod(p.inv, p.equipment) is None ==> derived(p).rod_tier == 0,
        owned_rod(p.inv, p.equipment) matches Some(f) ==> 0 <= f.tier <= 3 ==> derived(p).rod_tier
            == f.tier + 1,
        0 <= armor_bonus(p.equipment) <= 400 ==> derived(p).armor_defence == armor_bonus(
            p.equipment,
        ),
        derived(p).weapon_damage == weapon_bonus(p.equipment),
{
}

/// A click off the map does nothing. A click on a creature that is up sets out to attack one that
/// stands there; else a click on another player sets out to trade with one that stands there.
pub proof fn law_clicks_on_others(s: SimV, pid: u16, x: i32, y: i32)
    requires
        s.has(pid),
        s.players.slots.len() <= 0x1_0000,
        s.mobs.slots.len() <= 0x1_0000,
    ensures
        !(0 <= x < s.w && 0 <= y < s.h) ==> s.click(pid, x, y) == s,
        0 <= x < s.w && 0 <= y < s.h && !no_creature(s, x as i16, y as i16) ==> {
            let q = s.click(pid, x, y).p(pid);
            &&& q.intent matches Intent::Attack { mid } && mid < s.mobs.slots.len()
                && s.mobs.slots[mid as int].alive && s.mobs.slots[mid as int].respawn_at == 0 && (
            s.mobs.slots[mid as int].x, s.mobs.slots[mid as int].y) == (x as i16, y as i16)
            &&& q.ui == closed_ui()
            &&& q.trade.partner is None
        },
        0 <= x < s.w && 0 <= y < s.h && no_creature(s, x as i16, y as i16) && !no_player(
            s,
            x as i16,
            y as i16,
        ) && !(s.p(pid).alive && (s.p(pid).x, s.p(pid).y) == (x as i16, y as i16)) ==> {
            let q = s.click(pid, x, y).p(pid);
            &&& q.intent matches Intent::Trade { pid: other } && other != pid && other
                < s.players.slots.len() && s.players.slots[other as int].alive && (
            s.players.slots[other as int].x, s.players.slots[other as int].y) == (x as i16, y as i16)
            &&& q.ui == closed_ui()
            &&& q.trade.partner is None
        },
{
    let (ps, ms) = (s.players.slots, s.mobs.slots);
    lemma_first_at(ps, player_at(x, y), 0);
    lemma_first_at(ms, mob_at(x, y), 0);
    if !no_creature(s, x as i16, y as i16) {
        let k = choose|k: int|
            0 <= k < ms.len() && (#[trigger] ms[k]).alive && ms[k].respawn_at == 0 && (
            ms[k].x, ms[k].y) == (x as i16, y as i16);
        assert(mob_at(x, y)(ms[k]));
    } else {
        let n = first_at(ms, mob_at(x, y), 0);
        if n < ms.len() {
            assert(mob_at(x, y)(ms[n]));
        }
    }
    if !no_player(s, x as i16, y as i16) {
        let k = choose|k: int|
            0 <= k < ps.len() && (#[trigger] ps[k]).alive && (ps[k].x, ps[k].y) == (
            x as i16, y as i16);
        assert(player_at(x, y)(ps[k]));
    }
}

/// A click on a cell without a creature or another player sets out to do what is to be done
/// there: to chop a tree, mine a rock, pick from a bush with berries, talk to who deals, fish in
/// water with a rod, pick up what lies there, else to walk there if one can stand there.
pub proof fn law_clicks_on_cells(s: SimV, pid: u16, x: i32, y: i32)
    requires
        s.grid_ok(),
        s.has(pid),
        s.players.slots.len() <= 0x1_0000,
        s.ground.slots.len() <= 0x1_0000,
        0 <= x < s.w,
        0 <= y < s.h,
        no_creature(s, x as i16, y as i16),
        no_player(s, x as i16, y as i16),
    ensures
        ({
            let q = s.click(pid, x, y).p(pid);
            let o = s.objects[y * s.w + x];
            let rod = owned_rod(s.p(pid).inv, s.p(pid).equipment) is Some;
            let water = s.tiles[y * s.w + x] == Tile::Water;
            let there = exists|k: int|
                0 <= k < s.ground.slots.len() && (#[trigger] s.ground.slots[k]).alive && (
                s.ground.slots[k].x, s.ground.slots[k].y) == (x as i16, y as i16);
            let bare = !(o is Tree || o is Rock || o is Trader || o is Angel || o is Blacksmith
                || o is Angler) && (o matches Obj::Bush { berries, regrow } ==> berries <= 0);
            &&& o is Tree ==> q.intent == Intent::Chop
            &&& o is Rock ==> q.intent == Intent::Mine
            &&& (o matches Obj::Bush { berries, regrow } ==> (berries > 0 ==> q.intent
                == Intent::Pick))
            &&& o is Trader || o is Angel || o is Blacksmith || o is Angler ==> q.intent
                == Intent::Talk && q.ui == (UiState {
                trade_open: o == Obj::Trader,
                forge_open: o == Obj::Blacksmith,
                angler_open: o == Obj::Angler,
                angel_modal_open: o == Obj::Angel,
            })
            &&& !(o is Trader || o is Angel || o is Blacksmith || o is Angler) ==> q.ui
                == closed_ui()
            &&& bare && water && rod ==> q.intent == Intent::Fish
            &&& bare && !(water && rod) && there ==> q.intent == Intent::Pickup
            &&& bare && !(water && rod) && !there ==> q.intent == Intent::Idle
            &&& q.intent != Intent::Idle ==> q.target == Some((x, y))
            &&& q.intent == Intent::Idle ==> q.target == (if firm(s, x as int, y as int) {
                Some((x, y))
            } else {
                None
            })
            &&& q.trade.partner is None
        }),
{
    lemma_cell(s, x, y);
    crate::footing::law_open_cells(s, x, y, pid as i32);
    let (ps, ms) = (s.players.slots, s.mobs.slots);
    lemma_first_at(ps, player_at(x, y), 0);
    lemma_first_at(ms, mob_at(x, y), 0);
    let n = first_at(ms, mob_at(x, y), 0);
    if n < ms.len() {
        assert(mob_at(x, y)(ms[n]));
    }
    let k = first_at(ps, player_at(x, y), 0);
    if k < ps.len() {
        assert(player_at(x, y)(ps[k]));
    }
    lemma_stacks_on(s, x, y);
    let (ids, g) = (s.stacks_on(x, y), s.ground.slots);
    let there = exists|k: int|
        0 <= k < g.len() && (#[trigger] g[k]).alive && (g[k].x, g[k].y) == (x as i16, y as i16);
    if ids.len() > 0 {
        assert(g[ids[0] as int].alive);
        assert(there);
    } else if there {
        let k = choose|k: int|
            0 <= k < g.len() && (#[trigger] g[k]).alive && (g[k].x, g[k].y) == (x as i16, y as i16);
        assert(ids.contains(k as u16));
    }
    assert(there == (ids.len() > 0));
}

/// The stacks of a cell are those that lie there, each once.
pub proof fn lemma_stacks_on(s: SimV, x: i32, y: i32)
    requires
        s.ground.slots.len() <= 0x1_0000,
    ensures
        ({
            let ids = s.stacks_on(x, y);
            let g = s.ground.slots;
            &&& forall|j: int|
                0 <= j < ids.len() ==> (#[trigger] ids[j]) < g.len() && g[ids[j] as int].alive
                    && g[ids[j] as int].x == x as i16 && g[ids[j] as int].y == y as i16
            &&& forall|j: int, k: int| 0 <= j < k < ids.len() ==> ids[j] != ids[k]
            &&& forall|k: int|
                0 <= k < g.len() && (#[trigger] g[k]).alive && (g[k].x, g[k].y) == (
                x as i16, y as i16) ==> ids.contains(k as u16)
        }),
{
    let g = s.ground.slots;
    let live = s.ground.live();
    let alive = s.ground.alive();
    lemma_live_once(alive, g.len() as int);
    law_live_ids_are_live(alive, g.len() as int);
    lemma_lying_at(g, live, x, y);
    lemma_lying_all(g, live, x, y);
    let ids = s.stacks_on(x, y);
    assert forall|j: int| 0 <= j < ids.len() implies (#[trigger] ids[j]) < g.len()
        && g[ids[j] as int].alive && g[ids[j] as int].x == x as i16 && g[ids[j] as int].y
        == y as i16 by {
        assert(live.contains(ids[j]));
        let m = choose|m: int| 0 <= m < live.len() && live[m] == ids[j];
        assert(alive[live[m] as int]);
    }
    assert forall|k: int| 0 <= k < g.len() && (#[trigger] g[k]).alive && (g[k].x, g[k].y) == (
    x as i16, y as i16) implies ids.contains(k as u16) by {
        assert(alive[k]);
        assert(live.contains(k as u16));
    }
}

proof fn lemma_lying_all(slots: Seq<GroundV>, ids: Seq<u16>, x: i32, y: i32)
    ensures
        forall|j: int|
            0 <= j < lying_at(slots, ids, x, y).len() ==> slots[(#[trigger] lying_at(
                slots,
                ids,
                x,
                y,
            )[j]) as int].x == x as i16 && slots[lying_at(slots, ids, x, y)[j] as int].y == y as i16,
        forall|i: u16|
            ids.contains(i) && slots[i as int].x == x as i16 && slots[i as int].y == y as i16
                ==> #[trigger] lying_at(slots, ids, x, y).contains(i),
    decreases ids.len(),
{
    if ids.len() > 0 {
        let d = ids.drop_last();
        lemma_lying_all(slots, d, x, y);
        let (r, q) = (lying_at(slots, ids, x, y), lying_at(slots, d, x, y));
        assert forall|j: int| 0 <= j < r.len() implies slots[(#[trigger] r[j]) as int].x == x as i16
            && slots[r[j] as int].y == y as i16 by {
            if j < q.len() {
                assert(r[j] == q[j]);
            }
        }
        assert forall|i: u16|
            ids.contains(i) && slots[i as int].x == x as i16 && slots[i as int].y
                == y as i16 implies #[trigger] r.contains(i) by {
            let m = choose|m: int| 0 <= m < ids.len() && ids[m] == i;
            if m == ids.len() - 1 {
                assert(r[q.len() as int] == i);
            } else {
                assert(d[m] == i);
                assert(d.contains(i));
                assert(q.contains(i));
                let n = choose|n: int| 0 <= n < q.len() && q[n] == i;
                assert(r[n] == i);
            }
        }
    }
}

proof fn lemma_picked(s: SimV, pid: u16, ids: Seq<u16>, n: int)
    requires
        0 <= n <= ids.len(),
        s.has(pid),
        forall|j: int|
            0 <= j < ids.len() ==> (#[trigger] ids[j]) < s.ground.slots.len()
                && s.ground.slots[ids[j] as int].alive,
        forall|j: int, k: int| 0 <= j < k < ids.len() ==> ids[j] != ids[k],
    ensures
        ({
            let (t, full) = s.pick_up(pid, ids, n);
            &&& t.has(pid)
            &&& !full ==> t.ground.slots.len() == s.ground.slots.len()
            &&& !full ==> forall|j: int|
                0 <= j < n ==> !t.ground.slots[#[trigger] ids[j] as int].alive
            &&& !full ==> forall|k: int|
                0 <= k < s.ground.slots.len() && !listed(ids, k, n) ==> #[trigger] t.ground.slots[k]
                    == s.ground.slots[k]
            &&& full ==> exists|j: int|
                0 <= j < n && !fits(
                    t.p(pid).inv,
                    s.ground.slots[#[trigger] ids[j] as int].item,
                )
        }),
    decreases n,
{
    if n > 0 {
        lemma_picked(s, pid, ids, n - 1);
        let (u, was_full) = s.pick_up(pid, ids, n - 1);
        let (t, full) = s.pick_up(pid, ids, n);
        let h = ids[n - 1] as int;
        if !was_full {
            assert(!listed(ids, h, n - 1)) by {
                if listed(ids, h, n - 1) {
                    let j = choose|j: int| 0 <= j < n - 1 && #[trigger] ids[j] == h;
                    assert(ids[j] != ids[n - 1]);
                }
            }
            assert(u.ground.slots[h] == s.ground.slots[h]);
        }
        if !full {
            assert forall|k: int|
                0 <= k < s.ground.slots.len() && !listed(ids, k, n) implies #[trigger] t.ground.slots[k]
                == s.ground.slots[k] by {
                if listed(ids, k, n - 1) {
                    let j = choose|j: int| 0 <= j < n - 1 && #[trigger] ids[j] == k;
                    assert(ids[j] == k);
                }
                assert(k != h) by {
                    if k == h {
                        assert(ids[n - 1] == k);
                    }
                }
            }
            assert forall|j: int|
                0 <= j < n implies !t.ground.slots[#[trigger] ids[j] as int].alive by {
                if j < n - 1 {
                    assert(ids[j] != ids[n - 1]);
                    assert(!u.ground.slots[ids[j] as int].alive);
                }
            }
        } else if was_full {
            let j = choose|j: int|
                0 <= j < n - 1 && !fits(u.p(pid).inv, s.ground.slots[#[trigger] ids[j] as int].item);
            assert(t.p(pid).inv == u.p(pid).inv);
            assert(!fits(t.p(pid).inv, s.ground.slots[ids[j] as int].item));
        } else {
            assert(t.p(pid).inv == u.p(pid).inv);
            assert(!fits(t.p(pid).inv, s.ground.slots[ids[n - 1] as int].item));
        }
    }
}

/// Whether a number is among the first ones of a list.
spec fn listed(ids: Seq<u16>, k: int, n: int) -> bool {
    exists|j: int| 0 <= j < n && #[trigger] ids[j] == k
}

/// Who picks things up leaves none of them on the cell, unless there is no room for one that lay
/// there; what lies elsewhere stays.
pub proof fn law_picking_up_clears_the_cell(s: SimV, pid: u16, t: (i32, i32))
    requires
        s.has(pid),
        s.ground.slots.len() <= 0x1_0000,
    ensures
        ({
            let r = s.pickup(pid, t);
            let g = s.ground.slots;
            ||| exists|k: int|
                0 <= k < g.len() && (#[trigger] g[k]).alive && (g[k].x, g[k].y) == (
                t.0 as i16, t.1 as i16) && !fits(r.p(pid).inv, g[k].item)
            ||| r.ground.slots.len() == g.len() && forall|k: int|
                0 <= k < g.len() ==> {
                    let there = g[k].alive && (g[k].x, g[k].y) == (t.0 as i16, t.1 as i16);
                    if there {
                        !(#[trigger] r.ground.slots[k]).alive
                    } else {
                        r.ground.slots[k] == g[k]
                    }
                }
        }),
        resting_after(s.pickup(pid, t).p(pid)),
{
    let ids = s.stacks_on(t.0, t.1);
    let u = s.rest(pid);
    let g = s.ground.slots;
    let n = ids.len() as int;
    lemma_stacks_on(s, t.0, t.1);
    lemma_picked(u, pid, ids, n);
    lemma_pick_up_rests(u, pid, ids, n);
    let (v, full) = u.pick_up(pid, ids, n);
    let r = s.pickup(pid, t);
    if full {
        let j = choose|j: int| 0 <= j < n && !fits(v.p(pid).inv, g[#[trigger] ids[j] as int].item);
        assert(g[ids[j] as int].alive);
        assert(!fits(r.p(pid).inv, g[ids[j] as int].item));
    } else {
        assert forall|k: int| 0 <= k < g.len() implies ({
            let there = g[k].alive && (g[k].x, g[k].y) == (t.0 as i16, t.1 as i16);
            if there {
                !(#[trigger] r.ground.slots[k]).alive
            } else {
                r.ground.slots[k] == g[k]
            }
        }) by {
            if g[k].alive && (g[k].x, g[k].y) == (t.0 as i16, t.1 as i16) {
                assert(ids.contains(k as u16));
                let j = choose|j: int| 0 <= j < n && ids[j] == k as u16;
                assert(!v.ground.slots[ids[j] as int].alive);
            } else if listed(ids, k, n) {
                let j = choose|j: int| 0 <= j < n && #[trigger] ids[j] == k;
                assert(g[ids[j] as int].alive);
            }
        }
    }
}

/// Whether a player has nothing more to do.
pub open spec fn resting_after(p: PlayerV) -> bool {
    p.intent == Intent::Idle && p.target is None
}

proof fn lemma_pick_up_rests(s: SimV, pid: u16, ids: Seq<u16>, n: int)
    requires
        s.has(pid),
        resting_after(s.p(pid)),
    ensures
        s.pick_up(pid, ids, n).0.has(pid),
        resting_after(s.pick_up(pid, ids, n).0.p(pid)),
    decreases n,
{
    if n > 0 {
        lemma_pick_up_rests(s, pid, ids, n - 1);
    }
}

} // verus!
