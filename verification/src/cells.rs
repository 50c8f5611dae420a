//! What changes on the map: commands change nothing there, and every cell that a tick
//! changes is listed.

use vstd::prelude::*;
use crate::combat::drops_from;
use crate::command::CmdV;
use crate::defs::{mob_kind, mob_of, ToolDef};
use crate::pools::MobV;
use crate::sim::{lemma_cell, SimV};
use crate::tick::{due_below, regrown};
use crate::types::{Intent, Obj, TPS};

verus! {

/// Whether a cell stands in a list.
pub open spec fn listed(cells: Seq<u32>, k: int) -> bool {
    exists|j: int| 0 <= j < cells.len() && #[trigger] cells[j] == k
}

impl SimV {
    /// Whether the map and the list of its changed cells are those of another world.
    pub open spec fn same_map(self, s: SimV) -> bool {
        &&& self.w == s.w
        &&& self.h == s.h
        &&& self.tiles == s.tiles
        &&& self.objects == s.objects
        &&& self.objects_dirty == s.objects_dirty
    }

    /// Whether every cell that differs from another world is listed, and every cell that
    /// was listed there.
    pub open spec fn lists_changes(self, s: SimV) -> bool {
        &&& self.objects.len() == s.objects.len()
        &&& forall|k: int|
            0 <= k < s.objects.len() && #[trigger] self.objects[k] != s.objects[k] ==> listed(
                self.objects_dirty,
                k,
            )
        &&& forall|k: int| #[trigger]
            listed(s.objects_dirty, k) ==> listed(self.objects_dirty, k)
    }
}

/// Changes that are listed step by step are listed at the end.
pub proof fn lemma_lists_changes_on(a: SimV, b: SimV, c: SimV)
    requires
        b.lists_changes(a),
        c.lists_changes(b),
    ensures
        c.lists_changes(a),
{
    assert forall|k: int| 0 <= k < a.objects.len() && #[trigger] c.objects[k]
        != a.objects[k] implies listed(c.objects_dirty, k) by {
        if b.objects[k] != a.objects[k] {
            assert(listed(b.objects_dirty, k));
        }
    }
}

proof fn lemma_with_obj(s: SimV, x: i32, y: i32, o: Obj)
    requires
        s.grid_ok(),
        s.in_b(x, y),
    ensures
        s.with_obj(x, y, o).lists_changes(s),
{
    lemma_cell(s, x, y);
    let t = s.with_obj(x, y, o);
    let i = s.cell(x, y);
    let n = s.objects_dirty.len() as int;
    assert(t.objects_dirty[n] == i as u32);
    assert(listed(t.objects_dirty, i));
    assert forall|k: int| #[trigger] listed(s.objects_dirty, k) implies listed(
        t.objects_dirty,
        k,
    ) by {
        let j = choose|j: int| 0 <= j < s.objects_dirty.len() && #[trigger] s.objects_dirty[j] == k;
        assert(t.objects_dirty[j] == k);
    }
}

pub proof fn lemma_pick_up(s: SimV, pid: u16, ids: Seq<u16>, n: int)
    ensures
        s.pick_up(pid, ids, n).0.same_map(s),
    decreases n,
{
    if n > 0 {
        lemma_pick_up(s, pid, ids, n - 1);
    }
}

/// What a player does changes no cell that is not listed.
pub proof fn lemma_acted(s: SimV, pid: u16, t: (i32, i32))
    requires
        s.grid_ok(),
        s.p(pid).intent is Attack || s.p(pid).intent is Trade || s.in_b(t.0, t.1),
    ensures
        s.acted(pid, t).lists_changes(s),
{
    match s.p(pid).intent {
        Intent::Chop => lemma_chop(s, pid, t),
        Intent::Mine => lemma_mine(s, pid, t),
        Intent::Pick => lemma_pick(s, pid, t),
        Intent::Pickup => {
            let ids = s.stacks_on(t.0, t.1);
            lemma_pick_up(s.rest(pid), pid, ids, ids.len() as int);
        },
        Intent::Attack { mid } => lemma_attack(s, pid, mid as u16),
        Intent::Trade { pid: other } => lemma_request_trade(s, pid, other as u16),
        _ => {},
    }
}

proof fn lemma_chop(s: SimV, pid: u16, t: (i32, i32))
    requires
        s.grid_ok(),
        s.in_b(t.0, t.1),
    ensures
        s.chop(pid, t).lists_changes(s),
{
    let r = s.chop(pid, t);
    let o = r.obj_at(t.0, t.1);
    lemma_cell(s, t.0, t.1);
    if !r.same_map(s) {
        assert(r.same_map(s.with_obj(t.0, t.1, o)));
        lemma_with_obj(s, t.0, t.1, o);
    }
}

proof fn lemma_mine(s: SimV, pid: u16, t: (i32, i32))
    requires
        s.grid_ok(),
        s.in_b(t.0, t.1),
    ensures
        s.mine(pid, t).lists_changes(s),
{
    let r = s.mine(pid, t);
    let o = r.obj_at(t.0, t.1);
    lemma_cell(s, t.0, t.1);
    if !r.same_map(s) {
        assert(r.same_map(s.with_obj(t.0, t.1, o)));
        lemma_with_obj(s, t.0, t.1, o);
    }
}

proof fn lemma_pick(s: SimV, pid: u16, t: (i32, i32))
    requires
        s.grid_ok(),
        s.in_b(t.0, t.1),
    ensures
        s.pick(pid, t).lists_changes(s),
{
    let r = s.pick(pid, t);
    let o = r.obj_at(t.0, t.1);
    lemma_cell(s, t.0, t.1);
    if !r.same_map(s) {
        assert(r.same_map(s.with_obj(t.0, t.1, o)));
        lemma_with_obj(s, t.0, t.1, o);
    }
}

pub proof fn lemma_spilled(
    s: SimV,
    pid: u16,
    kind: Seq<char>,
    x: i32,
    y: i32,
    drops: Seq<ToolDef>,
    n: int,
)
    ensures
        s.spilled(pid, kind, x, y, drops, n).same_map(s),
    decreases n,
{
    if n > 0 {
        lemma_spilled(s, pid, kind, x, y, drops, n - 1);
    }
}

proof fn lemma_slain(s: SimV, pid: u16, mid: u16)
    ensures
        s.slain(pid, mid).same_map(s),
{
    let m = s.m(mid);
    let kind = mob_kind(m.kind_id);
    let def = mob_of(kind);
    let (drops, rng) = drops_from(s.rng, def.tier as int, 0);
    let t = SimV {
        rng,
        ..s.put(pid, s.p(pid).said("You kill the "@ + kind + "!"@).idle())
    }.put_mob(mid, MobV { respawn_at: s.tick.wrapping_add((20 * TPS) as u64), ..m }).dropped(
        m.x as i32,
        m.y as i32,
        "coins"@,
        def.coin,
    );
    lemma_spilled(t, pid, kind, m.x as i32, m.y as i32, drops, drops.len() as int);
}

pub proof fn lemma_attack(s: SimV, pid: u16, mid: u16)
    ensures
        s.attack(pid, mid).same_map(s),
{
    assert forall|t: SimV| (#[trigger] t.slain(pid, mid)).same_map(t) by {
        lemma_slain(t, pid, mid);
    }
}

pub proof fn lemma_request_trade(s: SimV, pid: u16, other: u16)
    ensures
        s.request_trade(pid, other).same_map(s),
{
}

/// What a creature does changes nothing on the map.
pub proof fn law_creatures_leave_the_map(s: SimV, mid: u16)
    ensures
        s.mob_turn(mid).same_map(s),
{
}

/// Whatever a player does in its turn, every cell that it changes is listed.
pub proof fn law_turn_lists_changes(s: SimV, pid: u16)
    requires
        s.wf(),
        s.has(pid),
    ensures
        s.player_turn(pid).lists_changes(s),
{
    let p = s.p(pid);
    assert(p.ok(s.w, s.h, s.players.slots.len()));
    if let Some(t) = s.bound_for(pid) {
        if p.alive && s.way(pid, t).reached((p.x as i32, p.y as i32)) {
            lemma_acted(s, pid, t);
        }
    }
}

proof fn lemma_due_below(objects: Seq<Obj>, now: u64, n: int, k: int)
    requires
        0 <= k < n <= objects.len(),
        n <= 0x1_0000_0000,
        regrown(objects[k], now) is Some,
    ensures
        listed(due_below(objects, now, n), k),
    decreases n,
{
    let d = due_below(objects, now, n - 1);
    if k == n - 1 {
        assert(d.push(k as u32)[d.len() as int] == k as u32);
    } else {
        lemma_due_below(objects, now, n - 1, k);
        let j = choose|j: int| 0 <= j < d.len() && #[trigger] d[j] == k;
        assert(due_below(objects, now, n)[j] == k);
    }
}

/// Every cell on which something has grown again is listed.
pub proof fn law_growth_lists_changes(s: SimV)
    requires
        s.grid_ok(),
    ensures
        s.grown().lists_changes(s),
{
    let t = s.grown();
    let d = due_below(s.objects, s.tick, s.objects.len() as int);
    let n = s.objects_dirty.len() as int;
    assert forall|k: int| 0 <= k < s.objects.len() && #[trigger] t.objects[k]
        != s.objects[k] implies listed(t.objects_dirty, k) by {
        lemma_due_below(s.objects, s.tick, s.objects.len() as int, k);
        let j = choose|j: int| 0 <= j < d.len() && #[trigger] d[j] == k;
        assert(t.objects_dirty[n + j] == k);
    }
    assert forall|k: int| #[trigger] listed(s.objects_dirty, k) implies listed(
        t.objects_dirty,
        k,
    ) by {
        let j = choose|j: int| 0 <= j < n && #[trigger] s.objects_dirty[j] == k;
        assert(t.objects_dirty[j] == k);
    }
}

proof fn lemma_click(s: SimV, pid: u16, x: i32, y: i32)
    ensures
        s.click(pid, x, y).same_map(s),
{
}

proof fn lemma_order_attack(s: SimV, pid: u16, mid: u16)
    ensures
        s.order_attack(pid, mid).same_map(s),
{
}

proof fn lemma_order_trade(s: SimV, pid: u16, other: u16)
    ensures
        s.order_trade(pid, other).same_map(s),
{
}

proof fn lemma_stop(s: SimV, pid: u16)
    ensures
        s.stop(pid).same_map(s),
{
}

proof fn lemma_eat(s: SimV, pid: u16, slot: usize)
    ensures
        s.eat(pid, slot).same_map(s),
{
}

proof fn lemma_drop_one(s: SimV, pid: u16, slot: usize)
    ensures
        s.drop_one(pid, slot).same_map(s),
{
}

proof fn lemma_equip(s: SimV, pid: u16, slot: usize)
    ensures
        s.equip(pid, slot).same_map(s),
{
}

proof fn lemma_unequip(s: SimV, pid: u16, place: Seq<char>)
    ensures
        s.unequip(pid, place).same_map(s),
{
}

proof fn lemma_buy(s: SimV, pid: u16, item: Seq<char>)
    ensures
        s.buy(pid, item).same_map(s),
{
}

proof fn lemma_sell(s: SimV, pid: u16, slot: usize)
    ensures
        s.sell(pid, slot).same_map(s),
{
}

proof fn lemma_close(s: SimV, pid: u16, which: Seq<char>)
    ensures
        s.close(pid, which).same_map(s),
{
}

proof fn lemma_angler_buy(s: SimV, pid: u16, rod: Seq<char>)
    ensures
        s.angler_buy(pid, rod).same_map(s),
{
    reveal(SimV::made);
}

proof fn lemma_forge(s: SimV, pid: u16, item: Seq<char>)
    ensures
        s.forge(pid, item).same_map(s),
{
    reveal(SimV::made);
}

proof fn lemma_cancel_trade(s: SimV, pid: u16, line: Seq<char>)
    ensures
        s.cancel_trade(pid, line).same_map(s),
{
}

proof fn lemma_offer_slot(s: SimV, pid: u16, slot: usize)
    ensures
        s.offer_slot(pid, slot).same_map(s),
{
}

proof fn lemma_accept_trade(s: SimV, pid: u16)
    ensures
        s.accept_trade(pid).same_map(s),
{
}

proof fn lemma_confirm_trade(s: SimV, pid: u16)
    ensures
        s.confirm_trade(pid).same_map(s),
{
    reveal(SimV::complete_trade);
}

proof fn lemma_sacrifice(s: SimV, pid: u16)
    ensures
        s.sacrifice(pid).same_map(s),
{
}

proof fn lemma_decline(s: SimV, pid: u16)
    ensures
        s.decline(pid).same_map(s),
{
}

proof fn lemma_typed(s: SimV, pid: u16, text: Seq<char>, today: i32)
    ensures
        s.typed(pid, text, today).same_map(s),
{
    reveal(SimV::typed);
}

/// No command changes anything on the map.
pub proof fn law_commands_leave_the_map(s: SimV, pid: u16, c: CmdV, today: i32)
    ensures
        s.obeyed(pid, c, today).same_map(s),
{
    match c {
        CmdV::Click { x, y } => lemma_click(s, pid, x, y),
        CmdV::Attack { mid } => lemma_order_attack(s, pid, mid as u16),
        CmdV::TradePlayer { pid: other } => lemma_order_trade(s, pid, other as u16),
        CmdV::Stop => lemma_stop(s, pid),
        CmdV::Eat { slot } => lemma_eat(s, pid, slot as usize),
        CmdV::Drop { slot } => lemma_drop_one(s, pid, slot as usize),
        CmdV::Equip { slot } => lemma_equip(s, pid, slot as usize),
        CmdV::Unequip { slot } => lemma_unequip(s, pid, slot),
        CmdV::Buy { item } => lemma_buy(s, pid, item),
        CmdV::Sell { slot } => lemma_sell(s, pid, slot as usize),
        CmdV::CloseTrade => lemma_close(s, pid, "trade"@),
        CmdV::CloseForge => lemma_close(s, pid, "forge"@),
        CmdV::CloseAngler => lemma_close(s, pid, "angler"@),
        CmdV::AnglerBuy { item } => lemma_angler_buy(s, pid, item),
        CmdV::Forge { item } => lemma_forge(s, pid, item),
        CmdV::ClosePlayerTrade => lemma_cancel_trade(s, pid, "Trade declined."@),
        CmdV::TradeOfferSlot { slot } => lemma_offer_slot(s, pid, slot as usize),
        CmdV::TradeAccept => lemma_accept_trade(s, pid),
        CmdV::TradeConfirm => lemma_confirm_trade(s, pid),
        CmdV::AngelConfirm => lemma_sacrifice(s, pid),
        CmdV::AngelDecline => lemma_decline(s, pid),
        CmdV::Chat { text } => lemma_typed(s, pid, text, today),
    }
}

} // verus!
