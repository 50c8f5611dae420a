//! The plain data of the world: tiles, objects, intents, skills, inventory,
//! equipment, trades and chat.

use vstd::prelude::*;
use crate::text::same_text;

verus! {

/// How many slots an inventory has.
pub const INV_SIZE: usize = 28;

/// The length of a tick in milliseconds: the world ticks once a second.
pub const TICK_MS: u64 = 1000;

/// Ticks in a second.
pub const TPS: u64 = 1000 / TICK_MS;

/// The ground of a map cell.
#[derive(Clone, Copy, PartialEq, Eq, Structural, Default, Debug)]
pub enum Tile {
    #[default]
    Grass,
    Dirt,
    Sand,
    Water,
    Stone,
    Path,
}

/// What stands on a map cell.
#[derive(Clone, Copy, PartialEq, Eq, Structural, Default, Debug)]
pub enum Obj {
    #[default]
    Empty,
    Tree { tier: i32, hp: i32 },
    Stump { tier: i32, regrow: u64 },
    Rock { tier: i32, hp: i32 },
    DepletedRock { tier: i32, regrow: u64 },
    Bush { berries: i32, regrow: u64 },
    Boulder,
    Trader,
    Angel,
    Blacksmith,
    Angler,
}

/// What a player is about to do once it reaches its target.
#[derive(Clone, Copy, PartialEq, Eq, Structural, Default, Debug)]
pub enum Intent {
    #[default]
    Idle,
    Chop,
    Mine,
    Pick,
    Fish,
    Talk,
    Pickup,
    Attack { mid: u32 },
    Trade { pid: u32 },
}

/// Levels and experience of a player.
#[derive(Clone, Copy, PartialEq, Eq, Structural, Debug)]
pub struct Skills {
    pub woodcutting: i32,
    pub mining: i32,
    pub fishing: i32,
    pub attack: i32,
    pub strength: i32,
    pub defence: i32,
    pub hp: i32,
    pub woodcutting_xp: i32,
    pub mining_xp: i32,
    pub fishing_xp: i32,
    pub attack_xp: i32,
    pub strength_xp: i32,
    pub defence_xp: i32,
    pub hp_xp: i32,
    pub angel_points: i32,
}

/// The skills of a new player: level 1 in everything, 10 hit points, no experience.
pub open spec fn starter_skills() -> Skills {
    Skills {
        woodcutting: 1,
        mining: 1,
        fishing: 1,
        attack: 1,
        strength: 1,
        defence: 1,
        hp: 10,
        woodcutting_xp: 0,
        mining_xp: 0,
        fishing_xp: 0,
        attack_xp: 0,
        strength_xp: 0,
        defence_xp: 0,
        hp_xp: 0,
        angel_points: 0,
    }
}

impl Skills {
    /// Levels lie between 1 and 99, hit points between 10 and 108.
    pub open spec fn wf(self) -> bool {
        &&& 1 <= self.woodcutting <= 99
        &&& 1 <= self.mining <= 99
        &&& 1 <= self.fishing <= 99
        &&& 1 <= self.attack <= 99
        &&& 1 <= self.strength <= 99
        &&& 1 <= self.defence <= 99
        &&& 10 <= self.hp <= 108
    }

    /// The skills of a new player.
    pub fn starter() -> (r: Self)
        ensures
            r == starter_skills(),
    {
        Skills {
            woodcutting: 1,
            mining: 1,
            fishing: 1,
            attack: 1,
            strength: 1,
            defence: 1,
            hp: 10,
            woodcutting_xp: 0,
            mining_xp: 0,
            fishing_xp: 0,
            attack_xp: 0,
            strength_xp: 0,
            defence_xp: 0,
            hp_xp: 0,
            angel_points: 0,
        }
    }
}

impl Default for Skills {
    fn default() -> (r: Self)
        ensures
            r == (Skills {
                woodcutting: 0,
                mining: 0,
                fishing: 0,
                attack: 0,
                strength: 0,
                defence: 0,
                hp: 0,
                ..starter_skills()
            }),
    {
        Skills {
            woodcutting: 0,
            mining: 0,
            fishing: 0,
            attack: 0,
            strength: 0,
            defence: 0,
            hp: 0,
            woodcutting_xp: 0,
            mining_xp: 0,
            fishing_xp: 0,
            attack_xp: 0,
            strength_xp: 0,
            defence_xp: 0,
            hp_xp: 0,
            angel_points: 0,
        }
    }
}

/// One inventory slot: an item and how many of it. An empty item is a free slot.
#[derive(Debug)]
pub struct InvSlot {
    pub item: String,
    pub qty: i32,
}

/// What an inventory slot holds.
pub struct SlotV {
    pub item: Seq<char>,
    pub qty: i32,
}

/// The free slot.
pub open spec fn free_slot() -> SlotV {
    SlotV { item: Seq::empty(), qty: 0 }
}

impl View for InvSlot {
    type V = SlotV;

    open spec fn view(&self) -> SlotV {
        SlotV { item: self.item@, qty: self.qty }
    }
}

impl Clone for InvSlot {
    fn clone(&self) -> (r: Self)
        ensures
            r@ == self@,
    {
        InvSlot { item: self.item.clone(), qty: self.qty }
    }
}

impl Default for InvSlot {
    fn default() -> (r: Self)
        ensures
            r@ == free_slot(),
    {
        InvSlot { item: String::new(), qty: 0 }
    }
}

/// What an inventory holds, slot by slot.
pub open spec fn slots_of(inv: Seq<InvSlot>) -> Seq<SlotV> {
    Seq::new(inv.len(), |k: int| inv[k]@)
}

/// An inventory of free slots.
pub open spec fn free_slots() -> Seq<SlotV> {
    Seq::new(INV_SIZE as nat, |k: int| free_slot())
}

/// A new inventory.
pub fn empty_inventory() -> (r: Vec<InvSlot>)
    ensures
        slots_of(r@) == free_slots(),
        r@.len() == INV_SIZE,
{
    let mut v: Vec<InvSlot> = Vec::new();
    let mut k: usize = 0;
    while k < INV_SIZE
        invariant
            k <= INV_SIZE,
            v@.len() == k,
            forall|j: int| 0 <= j < k ==> #[trigger] v@[j]@ == free_slot(),
        decreases INV_SIZE - k,
    {
        v.push(InvSlot::default());
        k = k + 1;
    }
    assert(slots_of(v@) =~= free_slots());
    v
}

/// A copy of an inventory.
pub fn copy_slots(inv: &[InvSlot]) -> (r: Vec<InvSlot>)
    ensures
        slots_of(r@) == slots_of(inv@),
        r@.len() == inv@.len(),
{
    let mut v: Vec<InvSlot> = Vec::new();
    let mut k: usize = 0;
    while k < inv.len()
        invariant
            k <= inv.len(),
            v@.len() == k,
            forall|j: int| 0 <= j < k ==> #[trigger] v@[j]@ == inv@[j]@,
        decreases inv.len() - k,
    {
        v.push(inv[k].clone());
        k = k + 1;
    }
    assert(slots_of(v@) =~= slots_of(inv@));
    v
}

/// What a player wears and holds; an empty name is a bare place.
#[derive(Debug)]
pub struct Equipment {
    pub helmet: String,
    pub chest: String,
    pub legs: String,
    pub left_hand: String,
    pub right_hand: String,
}

/// The names of the worn items.
pub struct EquipV {
    pub helmet: Seq<char>,
    pub chest: Seq<char>,
    pub legs: Seq<char>,
    pub left_hand: Seq<char>,
    pub right_hand: Seq<char>,
}

/// Nothing worn.
pub open spec fn no_equipment() -> EquipV {
    EquipV {
        helmet: Seq::empty(),
        chest: Seq::empty(),
        legs: Seq::empty(),
        left_hand: Seq::empty(),
        right_hand: Seq::empty(),
    }
}

impl EquipV {
    /// The item worn at a place; nothing for an unknown place.
    pub open spec fn at(self, slot: Seq<char>) -> Seq<char> {
        if slot == "helmet"@ {
            self.helmet
        } else if slot == "chest"@ {
            self.chest
        } else if slot == "legs"@ {
            self.legs
        } else if slot == "left_hand"@ {
            self.left_hand
        } else if slot == "right_hand"@ {
            self.right_hand
        } else {
            Seq::empty()
        }
    }

    /// The same equipment with another item worn at a place.
    pub open spec fn with(self, slot: Seq<char>, item: Seq<char>) -> EquipV {
        if slot == "helmet"@ {
            EquipV { helmet: item, ..self }
        } else if slot == "chest"@ {
            EquipV { chest: item, ..self }
        } else if slot == "legs"@ {
            EquipV { legs: item, ..self }
        } else if slot == "left_hand"@ {
            EquipV { left_hand: item, ..self }
        } else if slot == "right_hand"@ {
            EquipV { right_hand: item, ..self }
        } else {
            self
        }
    }
}

/// Whether a name is one of the five places of the equipment.
pub open spec fn is_equip_slot(slot: Seq<char>) -> bool {
    ||| slot == "helmet"@
    ||| slot == "chest"@
    ||| slot == "legs"@
    ||| slot == "left_hand"@
    ||| slot == "right_hand"@
}

/// Whether a name is one of the five places of the equipment.
pub fn names_equip_slot(slot: &str) -> (r: bool)
    ensures
        r == is_equip_slot(slot@),
{
    same_text(slot, "helmet") || same_text(slot, "chest") || same_text(slot, "legs") || same_text(
        slot,
        "left_hand",
    ) || same_text(slot, "right_hand")
}

impl View for Equipment {
    type V = EquipV;

    open spec fn view(&self) -> EquipV {
        EquipV {
            helmet: self.helmet@,
            chest: self.chest@,
            legs: self.legs@,
            left_hand: self.left_hand@,
            right_hand: self.right_hand@,
        }
    }
}

impl Clone for Equipment {
    fn clone(&self) -> (r: Self)
        ensures
            r@ == self@,
    {
        Equipment {
            helmet: self.helmet.clone(),
            chest: self.chest.clone(),
            legs: self.legs.clone(),
            left_hand: self.left_hand.clone(),
            right_hand: self.right_hand.clone(),
        }
    }
}

impl Default for Equipment {
    fn default() -> (r: Self)
        ensures
            r@ == no_equipment(),
    {
        Equipment {
            helmet: String::new(),
            chest: String::new(),
            legs: String::new(),
            left_hand: String::new(),
            right_hand: String::new(),
        }
    }
}

impl Equipment {
    /// The item worn at a place; the empty text for a bare or an unknown place.
    pub fn get(&self, slot: &str) -> (r: &str)
        ensures
            r@ == self@.at(slot@),
    {
        if same_text(slot, "helmet") {
            self.helmet.as_str()
        } else if same_text(slot, "chest") {
            self.chest.as_str()
        } else if same_text(slot, "legs") {
            self.legs.as_str()
        } else if same_text(slot, "left_hand") {
            self.left_hand.as_str()
        } else if same_text(slot, "right_hand") {
            self.right_hand.as_str()
        } else {
            proof {
                reveal_strlit("");
            }
            assert(""@ =~= Seq::<char>::empty());
            ""
        }
    }

    /// Puts an item at a place; an unknown place changes nothing.
    pub fn set(&mut self, slot: &str, item: String)
        ensures
            final(self)@ == old(self)@.with(slot@, item@),
    {
        if same_text(slot, "helmet") {
            self.helmet = item;
        } else if same_text(slot, "chest") {
            self.chest = item;
        } else if same_text(slot, "legs") {
            self.legs = item;
        } else if same_text(slot, "left_hand") {
            self.left_hand = item;
        } else if same_text(slot, "right_hand") {
            self.right_hand = item;
        }
    }
}

/// What is worn at a place is what was last put there.
pub proof fn law_equipment_get_after_set(e: EquipV, slot: Seq<char>, item: Seq<char>)
    requires
        is_equip_slot(slot),
    ensures
        e.with(slot, item).at(slot) == item,
{
}

/// Putting an item at one place leaves the other places alone.
pub proof fn law_equipment_set_leaves_others(e: EquipV, slot: Seq<char>, other: Seq<char>, item: Seq<char>)
    requires
        slot != other,
    ensures
        e.with(slot, item).at(other) == e.at(other),
{
}

/// The two stages of a trade between players.
#[derive(Clone, Copy, PartialEq, Eq, Structural, Default, Debug)]
pub enum TradeStage {
    #[default]
    Offer,
    Confirm,
}

/// A player's side of a trade.
#[derive(Debug)]
pub struct TradeState {
    pub request_from: Option<u32>,
    pub partner: Option<u32>,
    pub stage: TradeStage,
    pub offer: Vec<usize>,
    pub accepted: bool,
    pub confirmed: bool,
}

/// A player's side of a trade.
pub struct TradeV {
    pub request_from: Option<u32>,
    pub partner: Option<u32>,
    pub stage: TradeStage,
    pub offer: Seq<usize>,
    pub accepted: bool,
    pub confirmed: bool,
}

impl TradeV {
    /// The state outside any trade; a pending request stays.
    pub open spec fn reset(self) -> TradeV {
        TradeV {
            request_from: self.request_from,
            partner: None,
            stage: TradeStage::Offer,
            offer: Seq::empty(),
            accepted: false,
            confirmed: false,
        }
    }

    /// The state back at the offer stage, nothing accepted or confirmed.
    pub open spec fn reopened(self) -> TradeV {
        TradeV { stage: TradeStage::Offer, accepted: false, confirmed: false, ..self }
    }
}

/// No trade and no request.
pub open spec fn no_trade() -> TradeV {
    TradeV {
        request_from: None,
        partner: None,
        stage: TradeStage::Offer,
        offer: Seq::empty(),
        accepted: false,
        confirmed: false,
    }
}

impl View for TradeState {
    type V = TradeV;

    open spec fn view(&self) -> TradeV {
        TradeV {
            request_from: self.request_from,
            partner: self.partner,
            stage: self.stage,
            offer: self.offer@,
            accepted: self.accepted,
            confirmed: self.confirmed,
        }
    }
}

impl Default for TradeState {
    fn default() -> (r: Self)
        ensures
            r@ == no_trade(),
    {
        TradeState {
            request_from: None,
            partner: None,
            stage: TradeStage::Offer,
            offer: Vec::new(),
            accepted: false,
            confirmed: false,
        }
    }
}

impl Clone for TradeState {
    fn clone(&self) -> (r: Self)
        ensures
            r@ == self@,
    {
        let offer: Vec<usize> = self.offer.clone();
        assert(offer@ =~= self.offer@);
        TradeState {
            request_from: self.request_from,
            partner: self.partner,
            stage: self.stage,
            offer,
            accepted: self.accepted,
            confirmed: self.confirmed,
        }
    }
}

/// Which windows a player has open.
#[derive(Clone, Copy, PartialEq, Eq, Structural, Debug)]
pub struct UiState {
    pub trade_open: bool,
    pub forge_open: bool,
    pub angler_open: bool,
    pub angel_modal_open: bool,
}

/// Every window closed.
pub open spec fn closed_ui() -> UiState {
    UiState { trade_open: false, forge_open: false, angler_open: false, angel_modal_open: false }
}

impl Default for UiState {
    fn default() -> (r: Self)
        ensures
            r == closed_ui(),
    {
        UiState {
            trade_open: false,
            forge_open: false,
            angler_open: false,
            angel_modal_open: false,
        }
    }
}

/// The window that talking to an object opens, all others closed.
pub open spec fn talk_ui(o: Obj) -> UiState {
    UiState {
        trade_open: o is Trader,
        forge_open: o is Blacksmith,
        angler_open: o is Angler,
        angel_modal_open: o is Angel,
    }
}

/// The windows after talking to an object.
pub fn ui_for(o: Obj) -> (r: UiState)
    ensures
        r == talk_ui(o),
{
    UiState {
        trade_open: matches!(o, Obj::Trader),
        forge_open: matches!(o, Obj::Blacksmith),
        angler_open: matches!(o, Obj::Angler),
        angel_modal_open: matches!(o, Obj::Angel),
    }
}

/// A chat line.
#[derive(Debug)]
pub struct ChatMsg {
    pub id: u64,
    pub tick: u64,
    pub pid: u32,
    pub name: String,
    pub text: String,
}

/// A chat line.
pub struct ChatV {
    pub id: u64,
    pub tick: u64,
    pub pid: u32,
    pub name: Seq<char>,
    pub text: Seq<char>,
}

impl View for ChatMsg {
    type V = ChatV;

    open spec fn view(&self) -> ChatV {
        ChatV { id: self.id, tick: self.tick, pid: self.pid, name: self.name@, text: self.text@ }
    }
}

impl Clone for ChatMsg {
    fn clone(&self) -> (r: Self)
        ensures
            r@ == self@,
    {
        ChatMsg {
            id: self.id,
            tick: self.tick,
            pid: self.pid,
            name: self.name.clone(),
            text: self.text.clone(),
        }
    }
}

/// The chat lines of a list.
pub open spec fn chat_of(v: Seq<ChatMsg>) -> Seq<ChatV> {
    Seq::new(v.len(), |k: int| v[k]@)
}

/// The texts of a list.
pub open spec fn texts_of(v: Seq<String>) -> Seq<Seq<char>> {
    Seq::new(v.len(), |k: int| v[k]@)
}

/// A stack of items on the ground, as shown to clients.
#[derive(Debug)]
pub struct GroundItemView {
    pub id: u64,
    pub x: i32,
    pub y: i32,
    pub item: String,
    pub qty: i32,
}

impl Clone for GroundItemView {
    fn clone(&self) -> (r: Self)
        ensures
            r.id == self.id,
            r.x == self.x,
            r.y == self.y,
            r.item@ == self.item@,
            r.qty == self.qty,
    {
        GroundItemView {
            id: self.id,
            x: self.x,
            y: self.y,
            item: self.item.clone(),
            qty: self.qty,
        }
    }
}

} // verus!
