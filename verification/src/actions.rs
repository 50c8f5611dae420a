//! What players can ask for at any time: clicking, shopping, eating, dropping,
//! equipping, and the windows of the people of the world.

use vstd::prelude::*;
use crate::defs::{
    buy_price, fish_def_by_fish, fish_def_by_rod, item_equip_slot, item_name, item_value, FishDef,
    ANGLER_RESOURCE_QTY,
};
use crate::defs::{equip_place, fish_by_fish, fish_by_rod, item_label, item_price, shop_price};
use crate::inventory::{
    count_item_in, forge_recipe, has_item_in, inventory_gp_value, player_any_rod_available,
};
use crate::inventory::{
    added, count_of, deducted, fits, has_item, lemma_worth_fits, owned_rod, owns_rod, paid,
    recipe_of, slot_left, worth,
};
use crate::levels::law_level_of_nothing;
use crate::pools::PlayerV;
use crate::sim::{
    is_angel, is_angler, is_blacksmith, is_trader, lemma_cell, lemma_update_twice, Sim, SimV,
};
use crate::text::{decimal, int_text, join2, join3, join5, join7, lower_text, lowercase, same_text};
use crate::types::{
    closed_ui, empty_inventory, free_slot, free_slots, is_equip_slot, starter_skills, talk_ui, SlotV,
};
use crate::types::{names_equip_slot, ui_for, InvSlot, Intent, Obj, Skills, Tile, UiState, INV_SIZE};

verus! {

broadcast use lemma_update_twice;

/// What a click on an object means to do.
pub open spec fn object_intent(o: Obj) -> Intent {
    match o {
        Obj::Tree { tier, hp } => Intent::Chop,
        Obj::Rock { tier, hp } => Intent::Mine,
        Obj::Bush { berries, regrow } => if berries > 0 {
            Intent::Pick
        } else {
            Intent::Idle
        },
        Obj::Trader => Intent::Talk,
        Obj::Angel => Intent::Talk,
        Obj::Blacksmith => Intent::Talk,
        Obj::Angler => Intent::Talk,
        _ => Intent::Idle,
    }
}

fn intent_for(o: Obj) -> (r: Intent)
    ensures
        r == object_intent(o),
{
    match o {
        Obj::Tree { .. } => Intent::Chop,
        Obj::Rock { .. } => Intent::Mine,
        Obj::Bush { berries, .. } => if berries > 0 {
            Intent::Pick
        } else {
            Intent::Idle
        },
        Obj::Trader => Intent::Talk,
        Obj::Angel => Intent::Talk,
        Obj::Blacksmith => Intent::Talk,
        Obj::Angler => Intent::Talk,
        _ => Intent::Idle,
    }
}

/// The sum of two numbers, held within 32 bits.
pub open spec fn saturated(a: int, b: int) -> i32 {
    if a + b > i32::MAX {
        i32::MAX
    } else if a + b < i32::MIN {
        i32::MIN
    } else {
        (a + b) as i32
    }
}

fn saturating_sum(a: i32, b: i32) -> (r: i32)
    ensures
        r == saturated(a as int, b as int),
{
    let s: i64 = a as i64 + b as i64;
    if s > 0x7fff_ffff {
        i32::MAX
    } else if s < -0x8000_0000 {
        i32::MIN
    } else {
        s as i32
    }
}

/// The inventory after one item was added `n` times.
pub open spec fn added_times(inv: Seq<SlotV>, item: Seq<char>, n: int) -> Seq<SlotV>
    decreases n,
{
    if n <= 0 {
        inv
    } else {
        added(added_times(inv, item, n - 1), item, 1)
    }
}

/// What eating an item does: the hit points it gives and what the player hears.
pub open spec fn meal(item: Seq<char>) -> Option<(int, Seq<char>)> {
    if item == "berries"@ {
        Some((3, "You eat the berries. (+3 HP)"@))
    } else {
        match fish_by_fish(item) {
            Some(f) => Some(
                (
                    f.heal as int,
                    "You eat the "@ + lower_text(f.fish_name@) + ". (+"@ + decimal(f.heal as int)
                        + " HP)"@,
                ),
            ),
            None => None,
        }
    }
}

fn meal_of(item: &str) -> (r: Option<(i16, String)>)
    ensures
        r is Some == meal(item@) is Some,
        r matches Some(m) ==> m.0 == meal(item@).unwrap().0 && m.1@ == meal(item@).unwrap().1 && 3
            <= m.0 <= 32,
{
    if same_text(item, "berries") {
        return Some((3, "You eat the berries. (+3 HP)".to_owned()));
    }
    match fish_def_by_fish(item) {
        Some(f) => Some(
            (
                f.heal as i16,
                join5(
                    "You eat the ",
                    lowercase(f.fish_name).as_str(),
                    ". (+",
                    int_text(f.heal as i64).as_str(),
                    " HP)",
                ),
            ),
        ),
        None => None,
    }
}

impl SimV {
    /// What a player's click on a cell means to do there.
    pub open spec fn click_intent(self, pid: u16, x: i32, y: i32) -> Intent {
        let first = object_intent(self.obj_at(x, y));
        if first !is Idle {
            first
        } else if self.tile_at(x, y) is Water && owned_rod(
            self.p(pid).inv,
            self.p(pid).equipment,
        ) is Some {
            Intent::Fish
        } else if self.stacks_on(x, y).len() > 0 {
            Intent::Pickup
        } else {
            Intent::Idle
        }
    }

    /// The world after a player turned to a target with all windows closed and
    /// any trade left.
    pub open spec fn turn_to(
        self,
        pid: u16,
        ui: crate::types::UiState,
        intent: Intent,
        target: Option<(i32, i32)>,
    ) -> SimV {
        let s = self.cancel_trade(pid, "Trade cancelled."@);
        s.put(pid, PlayerV { ui, intent, target, ..s.p(pid) })
    }

    /// The world after a player set out to attack a creature that is up.
    pub open spec fn order_attack(self, pid: u16, mid: u16) -> SimV {
        if self.mobs.is_up(mid as int) {
            self.turn_to(
                pid,
                closed_ui(),
                Intent::Attack { mid: mid as u32 },
                Some((self.m(mid).x as i32, self.m(mid).y as i32)),
            )
        } else {
            self
        }
    }

    /// The world after a player set out to trade with another live player.
    pub open spec fn order_trade(self, pid: u16, other: u16) -> SimV {
        if pid != other && self.players.is_live(other as int) {
            self.turn_to(
                pid,
                closed_ui(),
                Intent::Trade { pid: other as u32 },
                Some((self.p(other).x as i32, self.p(other).y as i32)),
            )
        } else {
            self
        }
    }

    /// The world after a player clicked on a cell.
    pub open spec fn click(self, pid: u16, x: i32, y: i32) -> SimV {
        if !self.in_b(x, y) {
            self
        } else if let Some(mid) = self.mob_on(x, y) {
            self.order_attack(pid, mid)
        } else if self.player_on(x, y) is Some && self.player_on(x, y) != Some(pid) {
            self.order_trade(pid, self.player_on(x, y).unwrap())
        } else {
            let intent = self.click_intent(pid, x, y);
            self.turn_to(
                pid,
                if intent is Talk {
                    talk_ui(self.obj_at(x, y))
                } else {
                    closed_ui()
                },
                intent,
                if intent !is Idle || self.open_to(x, y, pid as i32) {
                    Some((x, y))
                } else {
                    None
                },
            )
        }
    }

    /// The world after a player said no to the angel.
    pub open spec fn decline(self, pid: u16) -> SimV {
        let p = self.p(pid);
        self.put(
            pid,
            PlayerV { ui: crate::types::UiState { angel_modal_open: false, ..p.ui }, ..p },
        )
    }

    /// The world after a player sacrificed its inventory to the angel: one angel
    /// point for each thousand coins of worth, everything else as at the start.
    pub open spec fn sacrifice(self, pid: u16) -> SimV {
        let p = self.p(pid);
        if !self.near(pid, is_angel()) {
            self.tell(pid, "Stand next to the angel."@)
        } else {
            let gp = worth(p.inv);
            let gain = (gp / 1000) as i32;
            self.put(
                pid,
                PlayerV {
                    inv: free_slots(),
                    skills: Skills {
                        angel_points: saturated(p.skills.angel_points as int, gain as int),
                        ..starter_skills()
                    },
                    hp_cur: 10,
                    ui: closed_ui(),
                    ..p
                }.idle().said(
                    "Your inventory is sacrificed ("@ + decimal(gp) + " GP). You gain "@ + decimal(
                        gain as int,
                    ) + " angel points. All levels reset. Angel points grant +1% XP each."@,
                ),
            )
        }
    }

    /// The world after a player bought a tool from the trader.
    pub open spec fn buy(self, pid: u16, item: Seq<char>) -> SimV {
        let p = self.p(pid);
        if !self.near(pid, is_trader()) {
            self.tell(pid, "Stand next to the trader."@)
        } else if shop_price(item) is None {
            self
        } else if has_item(p.inv, item) {
            self.tell(pid, "You already have a "@ + item_label(item) + "."@)
        } else if count_of(p.inv, "coins"@) < shop_price(item).unwrap() {
            self.tell(pid, "Not enough coins."@)
        } else {
            let price = shop_price(item).unwrap();
            let rest = paid(p.inv, price, 0);
            if fits(rest, item) {
                self.put(
                    pid,
                    PlayerV { inv: added(rest, item, 1), ..p }.said(
                        "You buy a "@ + item_label(item) + "."@,
                    ),
                )
            } else {
                self.put(
                    pid,
                    PlayerV { inv: added(rest, "coins"@, price), ..p }.said("Inventory full!"@),
                )
            }
        }
    }

    /// The world after a player sold a slot to the trader.
    pub open spec fn sell(self, pid: u16, slot: usize) -> SimV {
        let p = self.p(pid);
        let s = p.inv[slot as int];
        if !self.near(pid, is_trader()) {
            self.tell(pid, "Stand next to the trader."@)
        } else if slot >= INV_SIZE || s.item.len() == 0 || s.item == "coins"@ {
            self
        } else {
            match item_price(s.item) {
                None => self.tell(pid, "The trader does not buy that."@),
                Some(unit) => {
                    let gp = unit.wrapping_mul(s.qty);
                    self.put(
                        pid,
                        PlayerV {
                            inv: added(p.inv.update(slot as int, free_slot()), "coins"@, gp),
                            ..p
                        }.said(
                            "Sold "@ + s.item + "x"@ + decimal(s.qty as int) + " for "@ + decimal(
                                gp as int,
                            ) + "gp."@,
                        ),
                    )
                },
            }
        }
    }

    /// The world after the blacksmith forged an item for a player.
    pub open spec fn forge(self, pid: u16, item: Seq<char>) -> SimV {
        let p = self.p(pid);
        if !self.near(pid, is_blacksmith()) {
            self.tell(pid, "Stand next to the blacksmith."@)
        } else {
            match recipe_of(item) {
                None => self,
                Some((forged, name, ore, qty)) => self.made(
                    pid,
                    forged@,
                    ore@,
                    qty,
                    "You need "@ + decimal(qty as int) + " "@ + item_label(ore@) + " to forge a "@
                        + name@ + "."@,
                    "The blacksmith forges a "@ + name@ + " from "@ + decimal(qty as int) + " "@
                        + item_label(ore@) + "."@,
                ),
            }
        }
    }

    /// The world after `qty` of a stuff were turned into one item: `missing` is heard
    /// where there is not enough of it, `done` where it is done.
    #[verifier::opaque]
    pub open spec fn made(
        self,
        pid: u16,
        item: Seq<char>,
        stuff: Seq<char>,
        qty: i32,
        missing: Seq<char>,
        done: Seq<char>,
    ) -> SimV {
        let p = self.p(pid);
        if count_of(p.inv, stuff) < qty {
            self.tell(pid, missing)
        } else {
            let rest = deducted(p.inv, stuff, qty);
            if fits(rest, item) {
                self.put(pid, PlayerV { inv: added(rest, item, 1), ..p }.said(done))
            } else {
                self.put(
                    pid,
                    PlayerV { inv: added_times(rest, stuff, qty as int), ..p }.said(
                        "Inventory full!"@,
                    ),
                )
            }
        }
    }

    /// The world after a player got a rod from the angler.
    pub open spec fn angler_buy(self, pid: u16, rod: Seq<char>) -> SimV {
        let p = self.p(pid);
        if !self.near(pid, is_angler()) {
            self.tell(pid, "Stand next to the angler."@)
        } else {
            match fish_by_rod(rod) {
                None => self,
                Some(f) => if owns_rod(p.inv, p.equipment, f.rod@) {
                    self.tell(pid, "You already have a "@ + f.rod_name@ + "."@)
                } else {
                    self.made(
                        pid,
                        f.rod@,
                        f.resource@,
                        ANGLER_RESOURCE_QTY,
                        "The angler wants "@ + decimal(ANGLER_RESOURCE_QTY as int) + " "@
                            + item_label(f.resource@) + " for the "@ + f.rod_name@ + "."@,
                        "The angler hands you a "@ + f.rod_name@ + " for "@ + decimal(
                            ANGLER_RESOURCE_QTY as int,
                        ) + " "@ + item_label(f.resource@) + "."@,
                    )
                },
            }
        }
    }

    /// The world after a player ate one of a slot.
    pub open spec fn eat(self, pid: u16, slot: usize) -> SimV {
        let p = self.p(pid);
        let s = p.inv[slot as int];
        if slot >= INV_SIZE || s.qty <= 0 {
            self
        } else if p.hp_cur >= p.skills.hp {
            self.tell(pid, "You're already at full health."@)
        } else {
            match meal(s.item) {
                None => self,
                Some((heal, line)) => self.put(
                    pid,
                    PlayerV {
                        inv: p.inv.update(slot as int, slot_left(s, (s.qty - 1) as i32)),
                        hp_cur: if p.hp_cur + heal < p.skills.hp {
                            (p.hp_cur + heal) as i16
                        } else {
                            p.skills.hp as i16
                        },
                        ..p
                    }.said(line),
                ),
            }
        }
    }

    /// The world after a player dropped one of a slot.
    pub open spec fn drop_one(self, pid: u16, slot: usize) -> SimV {
        let p = self.p(pid);
        let s = p.inv[slot as int];
        if slot >= INV_SIZE || s.item.len() == 0 || s.qty <= 0 {
            self
        } else {
            self.put(
                pid,
                PlayerV {
                    inv: p.inv.update(slot as int, slot_left(s, (s.qty - 1) as i32)),
                    ..p
                }.said("You drop "@ + item_label(s.item) + "."@),
            ).dropped(p.x as i32, p.y as i32, s.item, 1)
        }
    }

    /// The world after an item went back into a player's inventory, or to the
    /// ground where there is no room.
    pub open spec fn put_back(self, pid: u16, item: Seq<char>) -> SimV {
        let p = self.p(pid);
        if fits(p.inv, item) {
            self.put(pid, PlayerV { inv: added(p.inv, item, 1), ..p })
        } else {
            self.dropped(p.x as i32, p.y as i32, item, 1).tell(
                pid,
                item_label(item) + " falls to the ground."@,
            )
        }
    }

    /// The world after a player put on an item of its inventory. What was worn
    /// there before goes back into the inventory.
    pub open spec fn equip(self, pid: u16, slot: usize) -> SimV {
        let p = self.p(pid);
        let s = p.inv[slot as int];
        if slot >= INV_SIZE || s.item.len() == 0 || equip_place(s.item) is None {
            self
        } else {
            let place = equip_place(s.item).unwrap();
            let prev = p.equipment.at(place);
            let left = if s.qty > 1 {
                SlotV { qty: (s.qty - 1) as i32, ..s }
            } else {
                free_slot()
            };
            let s1 = self.put(
                pid,
                PlayerV {
                    inv: p.inv.update(slot as int, left),
                    equipment: p.equipment.with(place, s.item),
                    ..p
                },
            );
            let s2 = if prev.len() > 0 {
                s1.put_back(pid, prev)
            } else {
                s1
            };
            s2.tell(pid, "You equip "@ + item_label(s.item) + "."@)
        }
    }

    /// The world after a player took off what it wears at a place.
    pub open spec fn unequip(self, pid: u16, place: Seq<char>) -> SimV {
        let p = self.p(pid);
        let item = p.equipment.at(place);
        if !is_equip_slot(place) || item.len() == 0 {
            self
        } else {
            let s = self.put(
                pid,
                PlayerV { equipment: p.equipment.with(place, Seq::empty()), ..p },
            );
            if fits(p.inv, item) {
                s.put_back(pid, item).tell(pid, "You unequip "@ + item_label(item) + "."@)
            } else {
                s.put_back(pid, item)
            }
        }
    }

    /// The world after a player stopped what it was doing; the forge stays open.
    pub open spec fn stop(self, pid: u16) -> SimV {
        let s = self.cancel_trade(pid, "Trade cancelled."@);
        let p = s.p(pid);
        s.put(
            pid,
            PlayerV {
                ui: crate::types::UiState { forge_open: p.ui.forge_open, ..closed_ui() },
                ..p
            }.idle(),
        )
    }

    /// The world after a player closed a window.
    pub open spec fn close(self, pid: u16, which: Seq<char>) -> SimV {
        let p = self.p(pid);
        let ui = if which == "trade"@ {
            crate::types::UiState { trade_open: false, ..p.ui }
        } else if which == "forge"@ {
            crate::types::UiState { forge_open: false, ..p.ui }
        } else if which == "angler"@ {
            crate::types::UiState { angler_open: false, ..p.ui }
        } else {
            p.ui
        };
        self.put(pid, PlayerV { ui, ..p })
    }
}

impl Sim {
    /// Adds a line to a player's log.
    pub fn tell(&mut self, pid: u16, line: String)
        requires
            old(self).wf(),
            old(self)@.has(pid),
        ensures
            final(self).wf(),
            final(self)@.as_many_players(old(self)@),
            final(self)@ == old(self)@.tell(pid, line@),
    {
        self.players.push_log(pid as usize, line);
    }

    /// Lets a player do nothing.
    pub fn rest(&mut self, pid: u16)
        requires
            old(self).wf(),
            old(self)@.has(pid),
        ensures
            final(self).wf(),
            final(self)@.as_many_players(old(self)@),
            final(self)@ == old(self)@.rest(pid),
    {
        self.players.aim(pid as usize, Intent::Idle, None);
    }

    fn turn_to(&mut self, pid: u16, ui: UiState, intent: Intent, target: Option<(i32, i32)>)
        requires
            old(self).wf(),
            old(self)@.has(pid),
            intent is Attack || intent is Trade || match target {
                Some(t) => old(self)@.in_b(t.0, t.1),
                None => true,
            },
        ensures
            final(self).wf(),
            final(self)@.as_many_players(old(self)@),
            final(self)@ == old(self)@.turn_to(pid, ui, intent, target),
    {
        self.cancel_player_trade(pid, "Trade cancelled.");
        self.players.set_ui(pid as usize, ui);
        self.players.aim(pid as usize, intent, target);
    }

    /// Sets out to attack a creature that is up.
    pub fn cmd_attack(&mut self, pid: u16, mid: u16)
        requires
            old(self).wf(),
            old(self)@.has(pid),
        ensures
            final(self).wf(),
            final(self)@.as_many_players(old(self)@),
            final(self)@ == old(self)@.order_attack(pid, mid),
    {
        let m: usize = mid as usize;
        if m >= self.mobs.alive.len() || !self.mobs.alive[m] || self.mobs.respawn_at[m] != 0 {
            return;
        }
        let target: (i32, i32) = (self.mobs.xs[m] as i32, self.mobs.ys[m] as i32);
        self.turn_to(pid, UiState::default(), Intent::Attack { mid: mid as u32 }, Some(target));
    }

    /// Sets out to trade with another live player.
    pub fn cmd_trade(&mut self, pid: u16, other_pid: u16)
        requires
            old(self).wf(),
            old(self)@.has(pid),
        ensures
            final(self).wf(),
            final(self)@.as_many_players(old(self)@),
            final(self)@ == old(self)@.order_trade(pid, other_pid),
    {
        if pid == other_pid {
            return;
        }
        if !self.players.is_alive(other_pid) {
            return;
        }
        let o: usize = other_pid as usize;
        let target: (i32, i32) = (self.players.xs[o] as i32, self.players.ys[o] as i32);
        self.turn_to(
            pid,
            UiState::default(),
            Intent::Trade { pid: other_pid as u32 },
            Some(target),
        );
    }

    fn click_intent(&self, pid: u16, x: i32, y: i32) -> (r: Intent)
        requires
            self.wf(),
            self@.has(pid),
            self@.in_b(x, y),
        ensures
            r == self@.click_intent(pid, x, y),
            !(r is Attack || r is Trade),
    {
        proof {
            lemma_cell(self@, x, y);
        }
        let i: usize = pid as usize;
        let first: Intent = intent_for(*self.obj(x, y));
        if !matches!(first, Intent::Idle) {
            return first;
        }
        if matches!(self.tile(x, y), Tile::Water) {
            if player_any_rod_available(
                self.players.inv[i].as_slice(),
                &self.players.equipment[i],
            ) {
                return Intent::Fish;
            }
        }
        if self.stacks_on(x, y).len() > 0 {
            return Intent::Pickup;
        }
        Intent::Idle
    }

    /// Clicks on a cell: attacks the creature there, asks the player there for a
    /// trade, sets out to use what is there, or walks.
    pub fn click(&mut self, pid: u16, x: i32, y: i32)
        requires
            old(self).wf(),
            old(self)@.has(pid),
        ensures
            final(self).wf(),
            final(self)@.as_many_players(old(self)@),
            final(self)@ == old(self)@.click(pid, x, y),
    {
        if !self.in_b(x, y) {
            return;
        }
        if let Some(mid) = self.occupant_mid(x, y) {
            self.cmd_attack(pid, mid);
            return;
        }
        if let Some(other_pid) = self.occupant_pid(x, y) {
            if other_pid != pid {
                self.cmd_trade(pid, other_pid);
                return;
            }
        }
        proof {
            lemma_cell(self@, x, y);
        }
        let intent: Intent = self.click_intent(pid, x, y);
        let walk_ok: bool = self.walkable(x, y, pid as i32);
        let ui: UiState = if matches!(intent, Intent::Talk) {
            ui_for(*self.obj(x, y))
        } else {
            UiState::default()
        };
        let target: Option<(i32, i32)> = if !matches!(intent, Intent::Idle) || walk_ok {
            Some((x, y))
        } else {
            None
        };
        self.turn_to(pid, ui, intent, target);
    }

    /// Says no to the angel.
    pub fn angel_decline(&mut self, pid: u16)
        requires
            old(self).wf(),
            old(self)@.has(pid),
        ensures
            final(self).wf(),
            final(self)@.as_many_players(old(self)@),
            final(self)@ == old(self)@.decline(pid),
    {
        let mut ui: UiState = self.players.ui[pid as usize];
        ui.angel_modal_open = false;
        self.players.set_ui(pid as usize, ui);
    }

    /// Sacrifices the inventory to the angel, if it is near.
    pub fn angel_sacrifice(&mut self, pid: u16)
        requires
            old(self).wf(),
            old(self)@.has(pid),
        ensures
            final(self).wf(),
            final(self)@.as_many_players(old(self)@),
            final(self)@ == old(self)@.sacrifice(pid),
    {
        if !self.near_angel(pid) {
            self.tell(pid, "Stand next to the angel.".to_owned());
            return;
        }
        let i: usize = pid as usize;
        assert(self@.p(pid).ok(self@.w, self@.h, self@.players.slots.len()));
        proof {
            lemma_worth_fits(self@.p(pid).inv);
        }
        let gp: i64 = inventory_gp_value(self.players.inv[i].as_slice());
        let gain: i32 = (gp / 1000) as i32;
        let points: i32 = saturating_sum(self.players.skills[i].angel_points, gain);
        self.players.set_inv(i, empty_inventory());
        let mut skills: Skills = Skills::starter();
        skills.angel_points = points;
        proof {
            law_level_of_nothing();
        }
        self.players.set_skills(i, skills);
        self.players.set_hp(i, 10);
        self.players.aim(i, Intent::Idle, None);
        self.players.set_ui(i, UiState::default());
        self.players.push_log(
            i,
            join5(
                "Your inventory is sacrificed (",
                int_text(gp).as_str(),
                " GP). You gain ",
                int_text(gain as i64).as_str(),
                " angel points. All levels reset. Angel points grant +1% XP each.",
            ),
        );
    }

    /// Buys a tool from the trader.
    pub fn buy(&mut self, pid: u16, item: &str)
        requires
            old(self).wf(),
            old(self)@.has(pid),
        ensures
            final(self).wf(),
            final(self)@.as_many_players(old(self)@),
            final(self)@ == old(self)@.buy(pid, item@),
    {
        if !self.near_trader(pid) {
            self.tell(pid, "Stand next to the trader.".to_owned());
            return;
        }
        let price: i32 = match buy_price(item) {
            Some(p) => p,
            None => {
                return;
            },
        };
        let i: usize = pid as usize;
        if has_item_in(self.players.inv[i].as_slice(), item) {
            self.tell(pid, join3("You already have a ", item_name(item), "."));
            return;
        }
        if !self.players.pay(i, price) {
            self.tell(pid, "Not enough coins.".to_owned());
            return;
        }
        if self.players.add_item(i, item, 1) {
            self.players.push_log(i, join3("You buy a ", item_name(item), "."));
        } else {
            assert(added(self@.p(pid).inv, item@, 1) == self@.p(pid).inv);
            self.players.add_item(i, "coins", price);
            self.players.push_log(i, "Inventory full!".to_owned());
        }
    }

    /// Sells a slot to the trader.
    pub fn sell(&mut self, pid: u16, slot: usize)
        requires
            old(self).wf(),
            old(self)@.has(pid),
        ensures
            final(self).wf(),
            final(self)@.as_many_players(old(self)@),
            final(self)@ == old(self)@.sell(pid, slot),
    {
        if !self.near_trader(pid) {
            self.tell(pid, "Stand next to the trader.".to_owned());
            return;
        }
        if slot >= INV_SIZE {
            return;
        }
        let i: usize = pid as usize;
        assert(self@.p(pid).ok(self@.w, self@.h, self@.players.slots.len()));
        let s: InvSlot = self.players.inv[i][slot].clone();
        if s.item.as_str().is_empty() || same_text(s.item.as_str(), "coins") {
            return;
        }
        let unit: i32 = match item_value(s.item.as_str()) {
            Some(u) => u,
            None => {
                self.tell(pid, "The trader does not buy that.".to_owned());
                return;
            },
        };
        let gp: i32 = unit.wrapping_mul(s.qty);
        self.players.set_slot(i, slot, InvSlot::default());
        self.players.add_item(i, "coins", gp);
        self.players.push_log(
            i,
            join7(
                "Sold ",
                s.item.as_str(),
                "x",
                int_text(s.qty as i64).as_str(),
                " for ",
                int_text(gp as i64).as_str(),
                "gp.",
            ),
        );
    }

    fn make(&mut self, pid: u16, item: &str, stuff: &str, qty: i32, missing: String, done: String)
        requires
            old(self).wf(),
            old(self)@.has(pid),
        ensures
            final(self).wf(),
            final(self)@.as_many_players(old(self)@),
            final(self)@ == old(self)@.made(pid, item@, stuff@, qty, missing@, done@),
    {
        reveal(SimV::made);
        let i: usize = pid as usize;
        if count_item_in(self.players.inv[i].as_slice(), stuff) < qty {
            self.tell(pid, missing);
            return;
        }
        self.players.deduct_item(i, stuff, qty);
        let ghost rest = self@.p(pid).inv;
        if !self.players.add_item(i, item, 1) {
            assert(self@.p(pid).inv == rest);
            let ghost start = self@;
            let mut k: i32 = 0;
            while k < qty
                invariant
                    0 <= k,
                    k <= qty || k == 0,
                    start.has(pid),
                    i == pid,
                    self.players.wf(),
                    self.wf(),
                    rest.len() == INV_SIZE,
                    self@ == start.put(
                        pid,
                        PlayerV { inv: added_times(rest, stuff@, k as int), ..start.p(pid) },
                    ),
                decreases qty - k,
            {
                self.players.add_item(i, stuff, 1);
                k = k + 1;
            }
            assert(added_times(rest, stuff@, k as int) == added_times(rest, stuff@, qty as int));
            self.players.push_log(i, "Inventory full!".to_owned());
            return;
        }
        self.players.push_log(i, done);
    }

    /// Has the blacksmith forge an item.
    pub fn forge(&mut self, pid: u16, item: &str)
        requires
            old(self).wf(),
            old(self)@.has(pid),
        ensures
            final(self).wf(),
            final(self)@.as_many_players(old(self)@),
            final(self)@ == old(self)@.forge(pid, item@),
    {
        if !self.near_blacksmith(pid) {
            self.tell(pid, "Stand next to the blacksmith.".to_owned());
            return;
        }
        let (forged, name, ore, qty): (&str, &str, &str, i32) = match forge_recipe(item) {
            Some(t) => t,
            None => {
                return;
            },
        };
        let n: String = int_text(qty as i64);
        let missing: String = join7(
            "You need ",
            n.as_str(),
            " ",
            item_name(ore),
            " to forge a ",
            name,
            ".",
        );
        let done: String = join7(
            "The blacksmith forges a ",
            name,
            " from ",
            n.as_str(),
            " ",
            item_name(ore),
            ".",
        );
        self.make(pid, forged, ore, qty, missing, done);
    }

    /// Gets a rod from the angler.
    pub fn angler_buy(&mut self, pid: u16, rod: &str)
        requires
            old(self).wf(),
            old(self)@.has(pid),
        ensures
            final(self).wf(),
            final(self)@.as_many_players(old(self)@),
            final(self)@ == old(self)@.angler_buy(pid, rod@),
    {
        if !self.near_angler(pid) {
            self.tell(pid, "Stand next to the angler.".to_owned());
            return;
        }
        let f: FishDef = match fish_def_by_rod(rod) {
            Some(f) => f,
            None => {
                return;
            },
        };
        let i: usize = pid as usize;
        if has_item_in(self.players.inv[i].as_slice(), f.rod) || same_text(
            self.players.equipment[i].right_hand.as_str(),
            f.rod,
        ) {
            self.tell(pid, join3("You already have a ", f.rod_name, "."));
            return;
        }
        let n: String = int_text(ANGLER_RESOURCE_QTY as i64);
        let missing: String = join7(
            "The angler wants ",
            n.as_str(),
            " ",
            item_name(f.resource),
            " for the ",
            f.rod_name,
            ".",
        );
        let done: String = join7(
            "The angler hands you a ",
            f.rod_name,
            " for ",
            n.as_str(),
            " ",
            item_name(f.resource),
            ".",
        );
        self.make(pid, f.rod, f.resource, ANGLER_RESOURCE_QTY, missing, done);
    }

    /// Eats one of a slot.
    pub fn eat(&mut self, pid: u16, slot: usize)
        requires
            old(self).wf(),
            old(self)@.has(pid),
        ensures
            final(self).wf(),
            final(self)@.as_many_players(old(self)@),
            final(self)@ == old(self)@.eat(pid, slot),
    {
        let i: usize = pid as usize;
        assert(self@.p(pid).ok(self@.w, self@.h, self@.players.slots.len()));
        if slot >= INV_SIZE || self.players.inv[i][slot].qty <= 0 {
            return;
        }
        let max: i32 = self.players.skills[i].hp;
        if self.players.hp_cur[i] as i32 >= max {
            self.tell(pid, "You're already at full health.".to_owned());
            return;
        }
        let s: InvSlot = self.players.inv[i][slot].clone();
        let (heal, line): (i16, String) = match meal_of(s.item.as_str()) {
            Some(m) => m,
            None => {
                return;
            },
        };
        let left: InvSlot = one_less(&s);
        let hp: i16 = self.players.hp_cur[i] + heal;
        self.players.set_slot(i, slot, left);
        self.players.set_hp(
            i,
            if hp < max as i16 {
                hp
            } else {
                max as i16
            },
        );
        self.players.push_log(i, line);
    }

    /// Drops one of a slot on the ground.
    pub fn drop_one(&mut self, pid: u16, slot: usize)
        requires
            old(self).wf(),
            old(self)@.has(pid),
        ensures
            final(self).wf(),
            final(self)@.as_many_players(old(self)@),
            final(self)@ == old(self)@.drop_one(pid, slot),
    {
        let i: usize = pid as usize;
        assert(self@.p(pid).ok(self@.w, self@.h, self@.players.slots.len()));
        if slot >= INV_SIZE {
            return;
        }
        let s: InvSlot = self.players.inv[i][slot].clone();
        if s.item.as_str().is_empty() || s.qty <= 0 {
            return;
        }
        let left: InvSlot = one_less(&s);
        let x: i32 = self.players.xs[i] as i32;
        let y: i32 = self.players.ys[i] as i32;
        self.players.set_slot(i, slot, left);
        self.players.push_log(i, join3("You drop ", item_name(s.item.as_str()), "."));
        self.drop_ground(x, y, s.item.as_str(), 1);
    }

    fn put_back(&mut self, pid: u16, item: &str)
        requires
            old(self).wf(),
            old(self)@.has(pid),
        ensures
            final(self).wf(),
            final(self)@.as_many_players(old(self)@),
            final(self)@ == old(self)@.put_back(pid, item@),
    {
        let i: usize = pid as usize;
        if !self.players.add_item(i, item, 1) {
            assert(self@ == old(self)@) by {
                assert(self@.p(pid).inv == old(self)@.p(pid).inv);
                assert(self@.players.slots =~= old(self)@.players.slots);
            }
            let x: i32 = self.players.xs[i] as i32;
            let y: i32 = self.players.ys[i] as i32;
            self.drop_ground(x, y, item, 1);
            self.tell(pid, join2(item_name(item), " falls to the ground."));
        }
    }

    /// Puts on an item of the inventory.
    pub fn equip_from_inv(&mut self, pid: u16, slot: usize)
        requires
            old(self).wf(),
            old(self)@.has(pid),
        ensures
            final(self).wf(),
            final(self)@.as_many_players(old(self)@),
            final(self)@ == old(self)@.equip(pid, slot),
    {
        let i: usize = pid as usize;
        assert(self@.p(pid).ok(self@.w, self@.h, self@.players.slots.len()));
        if slot >= INV_SIZE {
            return;
        }
        let s: InvSlot = self.players.inv[i][slot].clone();
        if s.item.as_str().is_empty() {
            return;
        }
        let place: &str = match item_equip_slot(s.item.as_str()) {
            Some(e) => e,
            None => {
                return;
            },
        };
        let prev: String = self.players.equipment[i].get(place).to_owned();
        if s.qty > 1 {
            self.players.set_slot(i, slot, InvSlot { item: s.item.clone(), qty: s.qty - 1 });
        } else {
            self.players.set_slot(i, slot, InvSlot::default());
        }
        self.players.wear(i, place, s.item.clone());
        if !prev.as_str().is_empty() {
            self.put_back(pid, prev.as_str());
        }
        self.tell(pid, join3("You equip ", item_name(s.item.as_str()), "."));
    }

    /// Takes off what is worn at a place.
    pub fn unequip_slot(&mut self, pid: u16, eq_slot: &str)
        requires
            old(self).wf(),
            old(self)@.has(pid),
        ensures
            final(self).wf(),
            final(self)@.as_many_players(old(self)@),
            final(self)@ == old(self)@.unequip(pid, eq_slot@),
    {
        if !names_equip_slot(eq_slot) {
            return;
        }
        let i: usize = pid as usize;
        let item: String = self.players.equipment[i].get(eq_slot).to_owned();
        if item.as_str().is_empty() {
            return;
        }
        let bare: String = String::new();
        assert(bare@ =~= Seq::<char>::empty());
        self.players.wear(i, eq_slot, bare);
        let ok: bool = self.players.add_item(i, item.as_str(), 1);
        if !ok {
            assert(self@.players.slots =~= old(self)@.players.slots.update(
                pid as int,
                PlayerV {
                    equipment: old(self)@.p(pid).equipment.with(eq_slot@, Seq::empty()),
                    ..old(self)@.p(pid)
                },
            ));
            let x: i32 = self.players.xs[i] as i32;
            let y: i32 = self.players.ys[i] as i32;
            self.drop_ground(x, y, item.as_str(), 1);
            self.tell(pid, join2(item_name(item.as_str()), " falls to the ground."));
            return;
        }
        self.tell(pid, join3("You unequip ", item_name(item.as_str()), "."));
    }

    /// Stops what a player was doing.
    pub fn stop(&mut self, pid: u16)
        requires
            old(self).wf(),
            old(self)@.has(pid),
        ensures
            final(self).wf(),
            final(self)@.as_many_players(old(self)@),
            final(self)@ == old(self)@.stop(pid),
    {
        self.cancel_player_trade(pid, "Trade cancelled.");
        let i: usize = pid as usize;
        assert(self@.has(pid));
        let mut ui: UiState = self.players.ui[i];
        self.players.aim(i, Intent::Idle, None);
        ui.trade_open = false;
        ui.angel_modal_open = false;
        ui.angler_open = false;
        self.players.set_ui(i, ui);
    }

    /// Closes the window of the trader, the blacksmith or the angler.
    pub fn close_ui(&mut self, pid: u16, which: &str)
        requires
            old(self).wf(),
            old(self)@.has(pid),
        ensures
            final(self).wf(),
            final(self)@.as_many_players(old(self)@),
            final(self)@ == old(self)@.close(pid, which@),
    {
        let mut ui: UiState = self.players.ui[pid as usize];
        if same_text(which, "trade") {
            ui.trade_open = false;
        } else if same_text(which, "forge") {
            ui.forge_open = false;
        } else if same_text(which, "angler") {
            ui.angler_open = false;
        }
        self.players.set_ui(pid as usize, ui);
    }

    /// Declines a trade with another player.
    pub fn close_player_trade(&mut self, pid: u16)
        requires
            old(self).wf(),
            old(self)@.has(pid),
        ensures
            final(self).wf(),
            final(self)@.as_many_players(old(self)@),
            final(self)@ == old(self)@.cancel_trade(pid, "Trade declined."@),
    {
        self.cancel_player_trade(pid, "Trade declined.");
    }
}

fn one_less(s: &InvSlot) -> (r: InvSlot)
    requires
        s.qty > 0,
    ensures
        r@ == slot_left(s@, (s.qty - 1) as i32),
{
    if s.qty == 1 {
        InvSlot::default()
    } else {
        InvSlot { item: s.item.clone(), qty: s.qty - 1 }
    }
}

} // verus!
