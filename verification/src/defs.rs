//! The tables of the world: creatures, resources, tools, fish, armour and swords,
//! and what follows from them: names, equipment places and prices.

use vstd::prelude::*;
use crate::rounding::{single, to_single, QUOTIENT_LIMIT};
use crate::search::{lemma_first_at, lemma_first_is};
use crate::search::{first_at, first_of};
use crate::text::{ends_with, has_suffix, same_text};
use crate::types::{EquipV, Equipment};

verus! {

/// A kind of creature.
#[derive(Clone, Copy, Debug)]
pub struct MobDef {
    pub kind: &'static str,
    pub name: &'static str,
    pub tier: i32,
    pub hp: i32,
    pub attack: i32,
    pub strength: i32,
    pub defence: i32,
    pub aggro: i32,
    pub coin: i32,
}

/// A kind of tree or rock.
#[derive(Clone, Copy, Debug)]
pub struct ResourceDef {
    pub tier: i32,
    pub name: &'static str,
    pub item: &'static str,
    pub hp: i32,
    pub xp: i32,
    pub sell: i32,
    pub req_tool_tier: i32,
    pub regrow_secs: u64,
}

/// A tool of the shop.
#[derive(Clone, Copy, Debug)]
pub struct ToolDef {
    pub item: &'static str,
    pub name: &'static str,
    pub kind: &'static str,
    pub tier: i32,
    pub buy: i32,
    pub power: i32,
}

/// A fish, the rod that catches it and what the rod costs.
#[derive(Clone, Copy, Debug)]
pub struct FishDef {
    pub tier: i32,
    pub fish: &'static str,
    pub fish_name: &'static str,
    pub rod: &'static str,
    pub rod_name: &'static str,
    pub resource: &'static str,
    pub heal: i32,
    pub sell: i32,
    pub xp: i32,
}

/// A piece of armour.
#[derive(Clone, Copy, Debug)]
pub struct ArmorDef {
    pub item: &'static str,
    pub name: &'static str,
    pub slot: &'static str,
    pub tier: i32,
    pub ore: &'static str,
    pub ore_qty: i32,
    pub defence: i32,
}

/// A sword.
#[derive(Clone, Copy, Debug)]
pub struct SwordDef {
    pub item: &'static str,
    pub name: &'static str,
    pub tier: i32,
    pub ore: &'static str,
    pub ore_qty: i32,
    pub damage: i32,
}

/// The creatures, weakest first.
pub open spec fn mobs_table() -> Seq<MobDef> {
    seq![
        MobDef { kind: "goblin", name: "goblin", tier: 1, hp: 24, attack: 8, strength: 9, defence: 4, aggro: 6, coin: 5 },
        MobDef { kind: "club_goblin", name: "club goblin", tier: 2, hp: 60, attack: 18, strength: 22, defence: 12, aggro: 6, coin: 25 },
        MobDef { kind: "ninja", name: "ninja", tier: 3, hp: 140, attack: 45, strength: 50, defence: 35, aggro: 8, coin: 90 },
        MobDef { kind: "dragon", name: "dragon", tier: 4, hp: 350, attack: 90, strength: 100, defence: 80, aggro: 6, coin: 225 },
    ]
}

/// The creatures, weakest first.
pub fn mob_defs() -> (r: [MobDef; 4])
    ensures
        r@ == mobs_table(),
{
    [
        MobDef { kind: "goblin", name: "goblin", tier: 1, hp: 24, attack: 8, strength: 9, defence: 4, aggro: 6, coin: 5 },
        MobDef { kind: "club_goblin", name: "club goblin", tier: 2, hp: 60, attack: 18, strength: 22, defence: 12, aggro: 6, coin: 25 },
        MobDef { kind: "ninja", name: "ninja", tier: 3, hp: 140, attack: 45, strength: 50, defence: 35, aggro: 8, coin: 90 },
        MobDef { kind: "dragon", name: "dragon", tier: 4, hp: 350, attack: 90, strength: 100, defence: 80, aggro: 6, coin: 225 },
    ]
}

/// The trees, by tier.
pub open spec fn trees_table() -> Seq<ResourceDef> {
    seq![
        ResourceDef { tier: 1, name: "Pine Tree", item: "pine_logs", hp: 4, xp: 20, sell: 5, req_tool_tier: 1, regrow_secs: 25 },
        ResourceDef { tier: 2, name: "Oak Tree", item: "oak_logs", hp: 10, xp: 55, sell: 50, req_tool_tier: 2, regrow_secs: 45 },
        ResourceDef { tier: 3, name: "Yew Tree", item: "yew_logs", hp: 22, xp: 130, sell: 500, req_tool_tier: 3, regrow_secs: 75 },
        ResourceDef { tier: 4, name: "Magic Tree", item: "magic_logs", hp: 48, xp: 320, sell: 5000, req_tool_tier: 4, regrow_secs: 110 },
    ]
}

/// The trees, by tier.
pub fn tree_defs() -> (r: [ResourceDef; 4])
    ensures
        r@ == trees_table(),
{
    [
        ResourceDef { tier: 1, name: "Pine Tree", item: "pine_logs", hp: 4, xp: 20, sell: 5, req_tool_tier: 1, regrow_secs: 25 },
        ResourceDef { tier: 2, name: "Oak Tree", item: "oak_logs", hp: 10, xp: 55, sell: 50, req_tool_tier: 2, regrow_secs: 45 },
        ResourceDef { tier: 3, name: "Yew Tree", item: "yew_logs", hp: 22, xp: 130, sell: 500, req_tool_tier: 3, regrow_secs: 75 },
        ResourceDef { tier: 4, name: "Magic Tree", item: "magic_logs", hp: 48, xp: 320, sell: 5000, req_tool_tier: 4, regrow_secs: 110 },
    ]
}

/// The rocks, by tier.
pub open spec fn rocks_table() -> Seq<ResourceDef> {
    seq![
        ResourceDef { tier: 1, name: "Copper Rock", item: "copper_ore", hp: 5, xp: 25, sell: 6, req_tool_tier: 1, regrow_secs: 30 },
        ResourceDef { tier: 2, name: "Iron Rock", item: "iron_ore", hp: 12, xp: 65, sell: 60, req_tool_tier: 2, regrow_secs: 50 },
        ResourceDef { tier: 3, name: "Gold Rock", item: "gold_ore", hp: 26, xp: 150, sell: 600, req_tool_tier: 3, regrow_secs: 80 },
        ResourceDef { tier: 4, name: "Cobalt Rock", item: "cobalt_ore", hp: 54, xp: 340, sell: 6000, req_tool_tier: 4, regrow_secs: 110 },
    ]
}

/// The rocks, by tier.
pub fn rock_defs() -> (r: [ResourceDef; 4])
    ensures
        r@ == rocks_table(),
{
    [
        ResourceDef { tier: 1, name: "Copper Rock", item: "copper_ore", hp: 5, xp: 25, sell: 6, req_tool_tier: 1, regrow_secs: 30 },
        ResourceDef { tier: 2, name: "Iron Rock", item: "iron_ore", hp: 12, xp: 65, sell: 60, req_tool_tier: 2, regrow_secs: 50 },
        ResourceDef { tier: 3, name: "Gold Rock", item: "gold_ore", hp: 26, xp: 150, sell: 600, req_tool_tier: 3, regrow_secs: 80 },
        ResourceDef { tier: 4, name: "Cobalt Rock", item: "cobalt_ore", hp: 54, xp: 340, sell: 6000, req_tool_tier: 4, regrow_secs: 110 },
    ]
}

/// The tools of the shop.
pub open spec fn tools_table() -> Seq<ToolDef> {
    seq![
        ToolDef { item: "bronze_axe", name: "Bronze Axe", kind: "axe", tier: 1, buy: 10, power: 1 },
        ToolDef { item: "iron_axe", name: "Iron Axe", kind: "axe", tier: 2, buy: 200, power: 2 },
        ToolDef { item: "steel_axe", name: "Steel Axe", kind: "axe", tier: 3, buy: 4000, power: 4 },
        ToolDef { item: "cobalt_axe", name: "Cobalt Axe", kind: "axe", tier: 4, buy: 30000, power: 8 },
        ToolDef { item: "bronze_pickaxe", name: "Bronze Pickaxe", kind: "pickaxe", tier: 1, buy: 15, power: 1 },
        ToolDef { item: "iron_pickaxe", name: "Iron Pickaxe", kind: "pickaxe", tier: 2, buy: 200, power: 2 },
        ToolDef { item: "steel_pickaxe", name: "Steel Pickaxe", kind: "pickaxe", tier: 3, buy: 4000, power: 4 },
        ToolDef { item: "cobalt_pickaxe", name: "Cobalt Pickaxe", kind: "pickaxe", tier: 4, buy: 30000, power: 8 },
    ]
}

/// The tools of the shop.
pub fn tool_defs() -> (r: [ToolDef; 8])
    ensures
        r@ == tools_table(),
{
    [
        ToolDef { item: "bronze_axe", name: "Bronze Axe", kind: "axe", tier: 1, buy: 10, power: 1 },
        ToolDef { item: "iron_axe", name: "Iron Axe", kind: "axe", tier: 2, buy: 200, power: 2 },
        ToolDef { item: "steel_axe", name: "Steel Axe", kind: "axe", tier: 3, buy: 4000, power: 4 },
        ToolDef { item: "cobalt_axe", name: "Cobalt Axe", kind: "axe", tier: 4, buy: 30000, power: 8 },
        ToolDef { item: "bronze_pickaxe", name: "Bronze Pickaxe", kind: "pickaxe", tier: 1, buy: 15, power: 1 },
        ToolDef { item: "iron_pickaxe", name: "Iron Pickaxe", kind: "pickaxe", tier: 2, buy: 200, power: 2 },
        ToolDef { item: "steel_pickaxe", name: "Steel Pickaxe", kind: "pickaxe", tier: 3, buy: 4000, power: 4 },
        ToolDef { item: "cobalt_pickaxe", name: "Cobalt Pickaxe", kind: "pickaxe", tier: 4, buy: 30000, power: 8 },
    ]
}

/// The fish and their rods, by tier.
pub open spec fn fish_table() -> Seq<FishDef> {
    seq![
        FishDef { tier: 0, fish: "yabby", fish_name: "Yabby", rod: "yabbypot", rod_name: "Yabby Pot", resource: "pine_logs", heal: 4, sell: 4, xp: 8 },
        FishDef { tier: 1, fish: "trout", fish_name: "Trout", rod: "oakrod", rod_name: "Oak Rod", resource: "oak_logs", heal: 8, sell: 16, xp: 32 },
        FishDef { tier: 2, fish: "salmon", fish_name: "Salmon", rod: "yewrod", rod_name: "Yew Rod", resource: "yew_logs", heal: 16, sell: 64, xp: 128 },
        FishDef { tier: 3, fish: "anglerfish", fish_name: "Anglerfish", rod: "magicrod", rod_name: "Magic Rod", resource: "magic_logs", heal: 32, sell: 256, xp: 512 },
    ]
}

/// The fish and their rods, by tier.
pub fn fish_defs() -> (r: [FishDef; 4])
    ensures
        r@ == fish_table(),
{
    [
        FishDef { tier: 0, fish: "yabby", fish_name: "Yabby", rod: "yabbypot", rod_name: "Yabby Pot", resource: "pine_logs", heal: 4, sell: 4, xp: 8 },
        FishDef { tier: 1, fish: "trout", fish_name: "Trout", rod: "oakrod", rod_name: "Oak Rod", resource: "oak_logs", heal: 8, sell: 16, xp: 32 },
        FishDef { tier: 2, fish: "salmon", fish_name: "Salmon", rod: "yewrod", rod_name: "Yew Rod", resource: "yew_logs", heal: 16, sell: 64, xp: 128 },
        FishDef { tier: 3, fish: "anglerfish", fish_name: "Anglerfish", rod: "magicrod", rod_name: "Magic Rod", resource: "magic_logs", heal: 32, sell: 256, xp: 512 },
    ]
}

/// `qty` doubled once for each tier above the first.
pub open spec fn doubled(qty: int, tier: int) -> int
    decreases tier,
{
    if tier <= 1 {
        qty
    } else {
        2 * doubled(qty, tier - 1)
    }
}

fn times_tier(qty: i32, tier: i32) -> (r: i32)
    requires
        0 <= qty <= 1000,
        1 <= tier <= 4,
    ensures
        r == doubled(qty as int, tier as int),
{
    proof {
        reveal_with_fuel(doubled, 4);
    }
    if tier == 1 {
        qty
    } else if tier == 2 {
        2 * qty
    } else if tier == 3 {
        4 * qty
    } else {
        8 * qty
    }
}

/// A piece of armour: its defence is its ore, doubled for each tier above the first.
pub open spec fn armor_row(
    item: &'static str,
    name: &'static str,
    slot: &'static str,
    tier: i32,
    ore: &'static str,
    qty: i32,
) -> ArmorDef {
    ArmorDef { item, name, slot, tier, ore, ore_qty: qty, defence: doubled(qty as int, tier as int) as i32 }
}

fn ad(
    item: &'static str,
    name: &'static str,
    slot: &'static str,
    tier: i32,
    ore: &'static str,
    qty: i32,
) -> (r: ArmorDef)
    requires
        0 <= qty <= 1000,
        1 <= tier <= 4,
    ensures
        r == armor_row(item, name, slot, tier, ore, qty),
{
    ArmorDef { item, name, slot, tier, ore, ore_qty: qty, defence: times_tier(qty, tier) }
}

/// A sword: its damage is its ore, doubled for each tier above the first.
pub open spec fn sword_row(
    item: &'static str,
    name: &'static str,
    tier: i32,
    ore: &'static str,
    qty: i32,
) -> SwordDef {
    SwordDef { item, name, tier, ore, ore_qty: qty, damage: doubled(qty as int, tier as int) as i32 }
}

fn sd(item: &'static str, name: &'static str, tier: i32, ore: &'static str, qty: i32) -> (r: SwordDef)
    requires
        0 <= qty <= 1000,
        1 <= tier <= 4,
    ensures
        r == sword_row(item, name, tier, ore, qty),
{
    SwordDef { item, name, tier, ore, ore_qty: qty, damage: times_tier(qty, tier) }
}

/// The armour.
pub open spec fn armors_table() -> Seq<ArmorDef> {
    seq![
        armor_row("copper_helm", "Copper Helm", "helmet", 1, "copper_ore", 5),
        armor_row("copper_plate", "Copper Plate", "chest", 1, "copper_ore", 10),
        armor_row("copper_greaves", "Copper Greaves", "legs", 1, "copper_ore", 7),
        armor_row("copper_shield", "Copper Shield", "left_hand", 1, "copper_ore", 6),
        armor_row("iron_helm", "Iron Helm", "helmet", 2, "iron_ore", 5),
        armor_row("iron_plate", "Iron Plate", "chest", 2, "iron_ore", 10),
        armor_row("iron_greaves", "Iron Greaves", "legs", 2, "iron_ore", 7),
        armor_row("iron_shield", "Iron Shield", "left_hand", 2, "iron_ore", 6),
        armor_row("gold_helm", "Gold Helm", "helmet", 3, "gold_ore", 5),
        armor_row("gold_plate", "Gold Plate", "chest", 3, "gold_ore", 10),
        armor_row("gold_greaves", "Gold Greaves", "legs", 3, "gold_ore", 7),
        armor_row("gold_shield", "Gold Shield", "left_hand", 3, "gold_ore", 6),
        armor_row("cobalt_helm", "Cobalt Helm", "helmet", 4, "cobalt_ore", 5),
        armor_row("cobalt_plate", "Cobalt Plate", "chest", 4, "cobalt_ore", 10),
        armor_row("cobalt_greaves", "Cobalt Greaves", "legs", 4, "cobalt_ore", 7),
        armor_row("cobalt_shield", "Cobalt Shield", "left_hand", 4, "cobalt_ore", 6),
    ]
}

/// The armour.
pub fn armor_defs() -> (r: [ArmorDef; 16])
    ensures
        r@ == armors_table(),
{
    [
        ad("copper_helm", "Copper Helm", "helmet", 1, "copper_ore", 5),
        ad("copper_plate", "Copper Plate", "chest", 1, "copper_ore", 10),
        ad("copper_greaves", "Copper Greaves", "legs", 1, "copper_ore", 7),
        ad("copper_shield", "Copper Shield", "left_hand", 1, "copper_ore", 6),
        ad("iron_helm", "Iron Helm", "helmet", 2, "iron_ore", 5),
        ad("iron_plate", "Iron Plate", "chest", 2, "iron_ore", 10),
        ad("iron_greaves", "Iron Greaves", "legs", 2, "iron_ore", 7),
        ad("iron_shield", "Iron Shield", "left_hand", 2, "iron_ore", 6),
        ad("gold_helm", "Gold Helm", "helmet", 3, "gold_ore", 5),
        ad("gold_plate", "Gold Plate", "chest", 3, "gold_ore", 10),
        ad("gold_greaves", "Gold Greaves", "legs", 3, "gold_ore", 7),
        ad("gold_shield", "Gold Shield", "left_hand", 3, "gold_ore", 6),
        ad("cobalt_helm", "Cobalt Helm", "helmet", 4, "cobalt_ore", 5),
        ad("cobalt_plate", "Cobalt Plate", "chest", 4, "cobalt_ore", 10),
        ad("cobalt_greaves", "Cobalt Greaves", "legs", 4, "cobalt_ore", 7),
        ad("cobalt_shield", "Cobalt Shield", "left_hand", 4, "cobalt_ore", 6),
    ]
}

/// The swords.
pub open spec fn swords_table() -> Seq<SwordDef> {
    seq![
        sword_row("copper_sword", "Copper Sword", 1, "copper_ore", 10),
        sword_row("iron_sword", "Iron Sword", 2, "iron_ore", 10),
        sword_row("gold_sword", "Gold Sword", 3, "gold_ore", 10),
        sword_row("cobalt_sword", "Cobalt Sword", 4, "cobalt_ore", 10),
    ]
}

/// The swords.
pub fn sword_defs() -> (r: [SwordDef; 4])
    ensures
        r@ == swords_table(),
{
    [
        sd("copper_sword", "Copper Sword", 1, "copper_ore", 10),
        sd("iron_sword", "Iron Sword", 2, "iron_ore", 10),
        sd("gold_sword", "Gold Sword", 3, "gold_ore", 10),
        sd("cobalt_sword", "Cobalt Sword", 4, "cobalt_ore", 10),
    ]
}

/// Picks the row whose `item` is the given name.
pub open spec fn tool_named(item: Seq<char>) -> spec_fn(ToolDef) -> bool {
    |d: ToolDef| d.item@ == item
}

/// The tool with the given item name.
pub open spec fn tool_of(item: Seq<char>) -> Option<ToolDef> {
    first_of(tools_table(), tool_named(item))
}

/// The tool with the given item name.
pub fn tool_def(item: &str) -> (r: Option<ToolDef>)
    ensures
        r == tool_of(item@),
        r matches Some(d) ==> {
            &&& 1 <= d.tier <= 4
            &&& 10 <= d.buy <= 30000
            &&& 1 <= d.power <= 8
        },
{
    let t: [ToolDef; 8] = tool_defs();
    let ghost f = tool_named(item@);
    let mut i: usize = 0;
    while i < 8
        invariant
            i <= 8,
            t@ == tools_table(),
            f == tool_named(item@),
            forall|j: int| 0 <= j < i ==> !f(#[trigger] t@[j]),
        decreases 8 - i,
    {
        let d: ToolDef = t[i];
        if same_text(d.item, item) {
            proof {
                lemma_first_is(tools_table(), f, 0, i as int);
            }
            return Some(d);
        }
        i = i + 1;
    }
    proof {
        lemma_first_is(tools_table(), f, 0, 8);
    }
    None
}

/// Picks the row whose `rod` is the given name.
pub open spec fn fish_with_rod(rod: Seq<char>) -> spec_fn(FishDef) -> bool {
    |d: FishDef| d.rod@ == rod
}

/// The fish that the given rod catches.
pub open spec fn fish_by_rod(rod: Seq<char>) -> Option<FishDef> {
    first_of(fish_table(), fish_with_rod(rod))
}

/// The fish that the given rod catches.
pub fn fish_def_by_rod(rod: &str) -> (r: Option<FishDef>)
    ensures
        r == fish_by_rod(rod@),
        r matches Some(d) ==> {
            &&& 0 <= d.tier <= 3
            &&& 4 <= d.heal <= 32
            &&& 4 <= d.sell <= 256
            &&& 8 <= d.xp <= 512
        },
{
    let t: [FishDef; 4] = fish_defs();
    let ghost f = fish_with_rod(rod@);
    let mut i: usize = 0;
    while i < 4
        invariant
            i <= 4,
            t@ == fish_table(),
            f == fish_with_rod(rod@),
            forall|j: int| 0 <= j < i ==> !f(#[trigger] t@[j]),
        decreases 4 - i,
    {
        let d: FishDef = t[i];
        if same_text(d.rod, rod) {
            proof {
                lemma_first_is(fish_table(), f, 0, i as int);
            }
            return Some(d);
        }
        i = i + 1;
    }
    proof {
        lemma_first_is(fish_table(), f, 0, 4);
    }
    None
}

/// Picks the row whose `fish` is the given name.
pub open spec fn fish_with_fish(fish: Seq<char>) -> spec_fn(FishDef) -> bool {
    |d: FishDef| d.fish@ == fish
}

/// The fish with the given item name.
pub open spec fn fish_by_fish(fish: Seq<char>) -> Option<FishDef> {
    first_of(fish_table(), fish_with_fish(fish))
}

/// The fish with the given item name.
pub fn fish_def_by_fish(fish: &str) -> (r: Option<FishDef>)
    ensures
        r == fish_by_fish(fish@),
        r matches Some(d) ==> {
            &&& 0 <= d.tier <= 3
            &&& 4 <= d.heal <= 32
            &&& 4 <= d.sell <= 256
            &&& 8 <= d.xp <= 512
        },
{
    let t: [FishDef; 4] = fish_defs();
    let ghost f = fish_with_fish(fish@);
    let mut i: usize = 0;
    while i < 4
        invariant
            i <= 4,
            t@ == fish_table(),
            f == fish_with_fish(fish@),
            forall|j: int| 0 <= j < i ==> !f(#[trigger] t@[j]),
        decreases 4 - i,
    {
        let d: FishDef = t[i];
        if same_text(d.fish, fish) {
            proof {
                lemma_first_is(fish_table(), f, 0, i as int);
            }
            return Some(d);
        }
        i = i + 1;
    }
    proof {
        lemma_first_is(fish_table(), f, 0, 4);
    }
    None
}

/// Picks the row whose `item` is the given name.
pub open spec fn armor_named(item: Seq<char>) -> spec_fn(ArmorDef) -> bool {
    |d: ArmorDef| d.item@ == item
}

/// The armour with the given item name.
pub open spec fn armor_of(item: Seq<char>) -> Option<ArmorDef> {
    first_of(armors_table(), armor_named(item))
}

/// The armour with the given item name.
pub fn armor_def(item: &str) -> (r: Option<ArmorDef>)
    ensures
        r == armor_of(item@),
        r matches Some(d) ==> {
            &&& 1 <= d.tier <= 4
            &&& 5 <= d.ore_qty <= 10
            &&& 5 <= d.defence <= 80
        },
{
    let t: [ArmorDef; 16] = armor_defs();
    let ghost f = armor_named(item@);
    let mut i: usize = 0;
    while i < 16
        invariant
            i <= 16,
            t@ == armors_table(),
            f == armor_named(item@),
            forall|j: int| 0 <= j < i ==> !f(#[trigger] t@[j]),
        decreases 16 - i,
    {
        let d: ArmorDef = t[i];
        if same_text(d.item, item) {
            proof {
                lemma_first_is(armors_table(), f, 0, i as int);
            }
            return Some(d);
        }
        i = i + 1;
    }
    proof {
        lemma_first_is(armors_table(), f, 0, 16);
    }
    None
}

/// Picks the row whose `item` is the given name.
pub open spec fn sword_named(item: Seq<char>) -> spec_fn(SwordDef) -> bool {
    |d: SwordDef| d.item@ == item
}

/// The sword with the given item name.
pub open spec fn sword_of(item: Seq<char>) -> Option<SwordDef> {
    first_of(swords_table(), sword_named(item))
}

/// The sword with the given item name.
pub fn sword_def(item: &str) -> (r: Option<SwordDef>)
    ensures
        r == sword_of(item@),
        r matches Some(d) ==> {
            &&& 1 <= d.tier <= 4
            &&& d.ore_qty == 10
            &&& 10 <= d.damage <= 80
        },
{
    let t: [SwordDef; 4] = sword_defs();
    let ghost f = sword_named(item@);
    let mut i: usize = 0;
    while i < 4
        invariant
            i <= 4,
            t@ == swords_table(),
            f == sword_named(item@),
            forall|j: int| 0 <= j < i ==> !f(#[trigger] t@[j]),
        decreases 4 - i,
    {
        let d: SwordDef = t[i];
        if same_text(d.item, item) {
            proof {
                lemma_first_is(swords_table(), f, 0, i as int);
            }
            return Some(d);
        }
        i = i + 1;
    }
    proof {
        lemma_first_is(swords_table(), f, 0, 4);
    }
    None
}

/// Picks the row whose `item` is the given name.
pub open spec fn resource_giving(item: Seq<char>) -> spec_fn(ResourceDef) -> bool {
    |d: ResourceDef| d.item@ == item
}

/// The tree that gives the item.
pub open spec fn tree_of_item(item: Seq<char>) -> Option<ResourceDef> {
    first_of(trees_table(), resource_giving(item))
}

/// The tree that gives the item.
pub fn tree_by_item(item: &str) -> (r: Option<ResourceDef>)
    ensures
        r == tree_of_item(item@),
        r matches Some(d) ==> {
            &&& 5 <= d.sell <= 5000
        },
{
    let t: [ResourceDef; 4] = tree_defs();
    let ghost f = resource_giving(item@);
    let mut i: usize = 0;
    while i < 4
        invariant
            i <= 4,
            t@ == trees_table(),
            f == resource_giving(item@),
            forall|j: int| 0 <= j < i ==> !f(#[trigger] t@[j]),
        decreases 4 - i,
    {
        let d: ResourceDef = t[i];
        if same_text(d.item, item) {
            proof {
                lemma_first_is(trees_table(), f, 0, i as int);
            }
            return Some(d);
        }
        i = i + 1;
    }
    proof {
        lemma_first_is(trees_table(), f, 0, 4);
    }
    None
}

/// The rock that gives the item.
pub open spec fn rock_of_item(item: Seq<char>) -> Option<ResourceDef> {
    first_of(rocks_table(), resource_giving(item))
}

/// The rock that gives the item.
pub fn rock_by_item(item: &str) -> (r: Option<ResourceDef>)
    ensures
        r == rock_of_item(item@),
        r matches Some(d) ==> {
            &&& 6 <= d.sell <= 6000
        },
{
    let t: [ResourceDef; 4] = rock_defs();
    let ghost f = resource_giving(item@);
    let mut i: usize = 0;
    while i < 4
        invariant
            i <= 4,
            t@ == rocks_table(),
            f == resource_giving(item@),
            forall|j: int| 0 <= j < i ==> !f(#[trigger] t@[j]),
        decreases 4 - i,
    {
        let d: ResourceDef = t[i];
        if same_text(d.item, item) {
            proof {
                lemma_first_is(rocks_table(), f, 0, i as int);
            }
            return Some(d);
        }
        i = i + 1;
    }
    proof {
        lemma_first_is(rocks_table(), f, 0, 4);
    }
    None
}

/// Picks the row of a kind of creature.
pub open spec fn mob_named(kind: Seq<char>) -> spec_fn(MobDef) -> bool {
    |d: MobDef| d.kind@ == kind
}

/// The row of a kind of creature; the first row for an unknown kind.
pub open spec fn mob_index(kind: Seq<char>) -> int {
    let k = first_at(mobs_table(), mob_named(kind), 0);
    if k < 4 {
        k
    } else {
        0
    }
}

/// What is known of a kind of creature; an unknown kind counts as the first.
pub open spec fn mob_of(kind: Seq<char>) -> MobDef {
    mobs_table()[mob_index(kind)]
}

/// The number of a kind of creature; 0 for an unknown kind.
pub fn mob_kind_id(kind: &str) -> (r: u8)
    ensures
        r == mob_index(kind@),
        r < 4,
{
    let t: [MobDef; 4] = mob_defs();
    let ghost f = mob_named(kind@);
    let mut i: usize = 0;
    while i < 4
        invariant
            i <= 4,
            t@ == mobs_table(),
            f == mob_named(kind@),
            forall|j: int| 0 <= j < i ==> !f(#[trigger] t@[j]),
        decreases 4 - i,
    {
        if same_text(t[i].kind, kind) {
            proof {
                lemma_first_is(mobs_table(), f, 0, i as int);
            }
            return i as u8;
        }
        i = i + 1;
    }
    proof {
        lemma_first_is(mobs_table(), f, 0, 4);
    }
    0
}

/// Bounds on the numbers of a creature.
pub open spec fn mob_bounds(d: MobDef) -> bool {
    &&& 1 <= d.tier <= 4
    &&& 24 <= d.hp <= 350
    &&& 8 <= d.attack <= 90
    &&& 9 <= d.strength <= 100
    &&& 4 <= d.defence <= 80
    &&& 6 <= d.aggro <= 8
    &&& 5 <= d.coin <= 225
}

/// The numbers of every creature lie in the bounds.
pub proof fn lemma_mob_bounds(kind: Seq<char>)
    ensures
        mob_bounds(mob_of(kind)),
        0 <= mob_index(kind) < 4,
{
    lemma_first_at(mobs_table(), mob_named(kind), 0);
    let k = mob_index(kind);
    assert(k == 0 || k == 1 || k == 2 || k == 3);
}

/// The definition of a kind of creature; an unknown kind counts as the first.
pub fn mob_def(kind: &str) -> (r: MobDef)
    ensures
        r == mob_of(kind@),
        mob_bounds(r),
{
    let k: u8 = mob_kind_id(kind);
    let t: [MobDef; 4] = mob_defs();
    t[k as usize]
}

/// The kind of creature with the given number; the first kind for an unknown number.
pub open spec fn mob_kind(id: u8) -> Seq<char> {
    if id < 4 {
        mobs_table()[id as int].kind@
    } else {
        "goblin"@
    }
}

/// The kind of creature with the given number; `goblin` for an unknown number.
pub fn mob_kind_by_id(id: u8) -> (r: &'static str)
    ensures
        r@ == mob_kind(id),
{
    let t: [MobDef; 4] = mob_defs();
    if id < 4 {
        t[id as usize].kind
    } else {
        "goblin"
    }
}

/// A kind's number names the kind again.
pub proof fn law_mob_kind_round_trip(id: u8)
    requires
        id < 4,
    ensures
        mob_index(mob_kind(id)) == id,
{
    reveal_strlit("goblin");
    reveal_strlit("club_goblin");
    reveal_strlit("ninja");
    reveal_strlit("dragon");
    let kind = mob_kind(id);
    let f = mob_named(kind);
    let t = mobs_table();
    assert(t[0].kind@ == "goblin"@ && t[1].kind@ == "club_goblin"@);
    assert(t[2].kind@ == "ninja"@ && t[3].kind@ == "dragon"@);
    assert("goblin"@[0] != "dragon"@[0]);
    assert(f(t[id as int]));
    assert forall|j: int| 0 <= j < id implies !f(#[trigger] t[j]) by {
        assert(j == 0 || j == 1 || j == 2);
    }
    lemma_first_is(mobs_table(), f, 0, id as int);
}

/// The fishing level that a rod of the given tier asks for.
pub open spec fn min_level(tier: i32) -> i32 {
    10i32.wrapping_mul(tier).wrapping_add(1)
}

/// The fishing level that a rod of the given tier asks for.
pub fn fish_min_level(tier: i32) -> (r: i32)
    ensures
        r == min_level(tier),
        0 <= tier <= 3 ==> r == 10 * tier + 1,
{
    10i32.wrapping_mul(tier).wrapping_add(1)
}

/// The levels above ten per tier, the numerator of a catch's chance.
pub open spec fn net_level(level: i32, tier: i32) -> int {
    let n = level.wrapping_sub(10i32.wrapping_mul(tier));
    if n < 0 {
        0
    } else {
        n as int
    }
}

/// The denominator of a catch's chance: a hundred, doubled for each tier, the tier taken in
/// five bits.
pub open spec fn catch_scale(tier: i32) -> int {
    doubled(100, (tier as u32 % 32) as int + 1)
}

/// The chance of a catch as a fraction: the levels above ten per tier, as a 32-bit float
/// holds them, over a hundred doubled for each tier; at most one.
pub open spec fn catch_ratio(level: i32, tier: i32) -> (int, int) {
    let d = catch_scale(tier);
    let n = single(net_level(level, tier));
    (
        if n < d {
            n
        } else {
            d
        },
        d,
    )
}

proof fn lemma_doubled_rises(a: int, b: int)
    requires
        1 <= a <= b,
    ensures
        100 <= doubled(100, a) <= doubled(100, b),
    decreases b,
{
    if a < b {
        lemma_doubled_rises(a, b - 1);
    } else if 1 < a {
        lemma_doubled_rises(a - 1, a - 1);
    }
}

/// The chance of a catch as a fraction.
pub fn fish_catch_chance(level: i32, tier: i32) -> (r: (u64, u64))
    ensures
        (r.0 as int, r.1 as int) == catch_ratio(level, tier),
        r.0 <= r.1,
        100 <= r.1 < QUOTIENT_LIMIT,
{
    let doublings: u32 = (tier as u32) % 32;
    let mut d: u64 = 100;
    let mut k: u32 = 0;
    while k < doublings
        invariant
            0 <= k <= doublings <= 31,
            d == doubled(100, k + 1),
        decreases doublings - k,
    {
        proof {
            lemma_doubled_rises(k + 2, 32);
            lemma_last_doubling();
        }
        d = 2 * d;
        k = k + 1;
    }
    proof {
        lemma_doubled_rises(1, doublings + 1);
        lemma_doubled_rises(doublings + 1, 32);
        lemma_last_doubling();
    }
    let net: i32 = level.wrapping_sub(10i32.wrapping_mul(tier));
    let n: u64 = if net < 0 {
        to_single(0) as u64
    } else {
        to_single(net as i64) as u64
    };
    if n < d {
        (n, d)
    } else {
        (d, d)
    }
}

proof fn lemma_last_doubling()
    ensures
        doubled(100, 32) == 214748364800,
{
    reveal_with_fuel(doubled, 32);
}

/// Whether an item is a rod.
pub fn is_rod_item(item: &str) -> (r: bool)
    ensures
        r == (fish_by_rod(item@) is Some),
{
    fish_def_by_rod(item).is_some()
}

/// The row for a tier: the first for tiers below 1, the last for tiers above 4.
pub open spec fn tier_index(tier: i32) -> int {
    let t = tier.wrapping_sub(1);
    if t < 0 {
        0
    } else if t > 3 {
        3
    } else {
        t as int
    }
}

/// The tree of a tier.
pub open spec fn tree_of(tier: i32) -> ResourceDef {
    trees_table()[tier_index(tier)]
}

/// The rock of a tier.
pub open spec fn rock_of(tier: i32) -> ResourceDef {
    rocks_table()[tier_index(tier)]
}

/// Bounds on the numbers of a tree or a rock.
pub open spec fn resource_bounds(d: ResourceDef) -> bool {
    &&& 1 <= d.tier <= 4
    &&& 4 <= d.hp <= 54
    &&& 20 <= d.xp <= 340
    &&& 1 <= d.req_tool_tier <= 4
    &&& 25 <= d.regrow_secs <= 110
}

fn tier_row(tier: i32) -> (r: usize)
    ensures
        r == tier_index(tier),
        r < 4,
{
    let t: i32 = tier.wrapping_sub(1);
    if t < 0 {
        0
    } else if t > 3 {
        3
    } else {
        t as usize
    }
}

/// The tree of a tier; tiers outside the table count as the nearest one.
pub fn tree_def(tier: i32) -> (r: ResourceDef)
    ensures
        r == tree_of(tier),
        resource_bounds(r),
{
    let t: [ResourceDef; 4] = tree_defs();
    t[tier_row(tier)]
}

/// The rock of a tier; tiers outside the table count as the nearest one.
pub fn rock_def(tier: i32) -> (r: ResourceDef)
    ensures
        r == rock_of(tier),
        resource_bounds(r),
{
    let t: [ResourceDef; 4] = rock_defs();
    t[tier_row(tier)]
}

/// The place where an item is worn: armour at its own place; axes, pickaxes,
/// swords and rods in the right hand.
pub open spec fn equip_place(item: Seq<char>) -> Option<Seq<char>> {
    match armor_of(item) {
        Some(a) => Some(a.slot@),
        None => if has_suffix(item, "_axe"@) || has_suffix(item, "_pickaxe"@) || has_suffix(
            item,
            "_sword"@,
        ) || fish_by_rod(item) is Some {
            Some("right_hand"@)
        } else {
            None
        },
    }
}

/// The place where an item is worn, if it can be worn.
pub fn item_equip_slot(item: &str) -> (r: Option<&'static str>)
    ensures
        r is Some == equip_place(item@) is Some,
        r matches Some(s) ==> equip_place(item@) == Some(s@),
{
    if let Some(a) = armor_def(item) {
        return Some(a.slot);
    }
    if ends_with(item, "_axe") || ends_with(item, "_pickaxe") || ends_with(item, "_sword")
        || is_rod_item(item) {
        Some("right_hand")
    } else {
        None
    }
}

/// The name that players see for an item.
pub open spec fn item_label(item: Seq<char>) -> Seq<char> {
    if item == "coins"@ {
        "Coins"@
    } else if item == "berries"@ {
        "Berries"@
    } else if item == "pine_logs"@ {
        "Pine logs"@
    } else if item == "oak_logs"@ {
        "Oak logs"@
    } else if item == "yew_logs"@ {
        "Yew logs"@
    } else if item == "magic_logs"@ {
        "Magic logs"@
    } else if item == "copper_ore"@ {
        "Copper ore"@
    } else if item == "iron_ore"@ {
        "Iron ore"@
    } else if item == "gold_ore"@ {
        "Gold ore"@
    } else if item == "cobalt_ore"@ {
        "Cobalt ore"@
    } else if item == "salmon"@ {
        "Salmon"@
    } else if item == "yabby"@ {
        "Yabby"@
    } else if item == "trout"@ {
        "Trout"@
    } else if item == "anglerfish"@ {
        "Anglerfish"@
    } else if item == "fishing_rod"@ {
        "Fishing rod"@
    } else if let Some(f) = fish_by_rod(item) {
        f.rod_name@
    } else if let Some(t) = tool_of(item) {
        t.name@
    } else if let Some(a) = armor_of(item) {
        a.name@
    } else if let Some(s) = sword_of(item) {
        s.name@
    } else {
        "Item"@
    }
}

/// The name that players see for an item; `Item` for an unknown one.
pub fn item_name(item: &str) -> (r: &'static str)
    ensures
        r@ == item_label(item@),
{
    if same_text(item, "coins") {
        "Coins"
    } else if same_text(item, "berries") {
        "Berries"
    } else if same_text(item, "pine_logs") {
        "Pine logs"
    } else if same_text(item, "oak_logs") {
        "Oak logs"
    } else if same_text(item, "yew_logs") {
        "Yew logs"
    } else if same_text(item, "magic_logs") {
        "Magic logs"
    } else if same_text(item, "copper_ore") {
        "Copper ore"
    } else if same_text(item, "iron_ore") {
        "Iron ore"
    } else if same_text(item, "gold_ore") {
        "Gold ore"
    } else if same_text(item, "cobalt_ore") {
        "Cobalt ore"
    } else if same_text(item, "salmon") {
        "Salmon"
    } else if same_text(item, "yabby") {
        "Yabby"
    } else if same_text(item, "trout") {
        "Trout"
    } else if same_text(item, "anglerfish") {
        "Anglerfish"
    } else if same_text(item, "fishing_rod") {
        "Fishing rod"
    } else if let Some(f) = fish_def_by_rod(item) {
        f.rod_name
    } else if let Some(t) = tool_def(item) {
        t.name
    } else if let Some(a) = armor_def(item) {
        a.name
    } else if let Some(s) = sword_def(item) {
        s.name
    } else {
        "Item"
    }
}

/// How much of its resource a rod costs.
pub const ANGLER_RESOURCE_QTY: i32 = 10;

/// What the trader pays for a log or an ore.
pub open spec fn resource_price(item: Seq<char>) -> Option<i32> {
    match tree_of_item(item) {
        Some(t) => Some(t.sell),
        None => match rock_of_item(item) {
            Some(k) => Some(k.sell),
            None => None,
        },
    }
}

fn resource_value(item: &str) -> (r: Option<i32>)
    ensures
        r == resource_price(item@),
        r matches Some(v) ==> 5 <= v <= 6000,
{
    if let Some(t) = tree_by_item(item) {
        return Some(t.sell);
    }
    match rock_by_item(item) {
        Some(k) => Some(k.sell),
        None => None,
    }
}

/// What the trader pays for a gathered thing: a berry, a fish, a log or an ore.
pub open spec fn gathered_price(item: Seq<char>) -> Option<i32> {
    if item == "berries"@ {
        Some(1i32)
    } else if let Some(f) = fish_by_fish(item) {
        Some(f.sell)
    } else {
        resource_price(item)
    }
}

fn gathered_value(item: &str) -> (r: Option<i32>)
    ensures
        r == gathered_price(item@),
        r matches Some(v) ==> 1 <= v <= 6000,
{
    if same_text(item, "berries") {
        return Some(1);
    }
    if let Some(f) = fish_def_by_fish(item) {
        return Some(f.sell);
    }
    resource_value(item)
}

/// What a rod is worth: as much as the resource that the angler takes for it.
pub open spec fn rod_price(item: Seq<char>) -> Option<i32> {
    match fish_by_rod(item) {
        Some(f) => match gathered_price(f.resource@) {
            Some(unit) => Some((unit * ANGLER_RESOURCE_QTY) as i32),
            None => None,
        },
        None => None,
    }
}

/// What a rod is worth.
pub fn rod_value(item: &str) -> (r: Option<i32>)
    ensures
        r == rod_price(item@),
        r matches Some(v) ==> 1 <= v <= 60000,
{
    match fish_def_by_rod(item) {
        Some(f) => match gathered_value(f.resource) {
            Some(unit) => Some(unit * ANGLER_RESOURCE_QTY),
            None => None,
        },
        None => None,
    }
}

/// What the trader pays for a gathered thing or a rod.
pub open spec fn sell_price(item: Seq<char>) -> Option<i32> {
    if item == "berries"@ {
        Some(1i32)
    } else if let Some(f) = fish_by_fish(item) {
        Some(f.sell)
    } else if let Some(v) = rod_price(item) {
        Some(v)
    } else {
        resource_price(item)
    }
}

/// What the trader pays for a gathered thing or a rod.
pub fn sell_value(item: &str) -> (r: Option<i32>)
    ensures
        r == sell_price(item@),
        r matches Some(v) ==> 1 <= v <= 60000,
{
    if same_text(item, "berries") {
        return Some(1);
    }
    if let Some(f) = fish_def_by_fish(item) {
        return Some(f.sell);
    }
    if let Some(v) = rod_value(item) {
        return Some(v);
    }
    resource_value(item)
}

/// The logs that the angler takes are no rods, no fish and no berries.
proof fn lemma_logs(resource: Seq<char>)
    requires
        resource == "pine_logs"@ || resource == "oak_logs"@ || resource == "yew_logs"@ || resource
            == "magic_logs"@,
    ensures
        resource != "berries"@,
        fish_by_rod(resource) is None,
        tree_of_item(resource) is Some,
        5 <= tree_of_item(resource).unwrap().sell <= 5000,
{
    reveal_strlit("berries");
    reveal_strlit("pine_logs");
    reveal_strlit("oak_logs");
    reveal_strlit("yew_logs");
    reveal_strlit("magic_logs");
    reveal_strlit("yabbypot");
    reveal_strlit("oakrod");
    reveal_strlit("yewrod");
    reveal_strlit("magicrod");
    let r = fish_with_rod(resource);
    let f = fish_table();
    let k = first_at(f, r, 0);
    lemma_first_at(f, r, 0);
    assert(f[0].rod@ == "yabbypot"@ && f[1].rod@ == "oakrod"@);
    assert(f[2].rod@ == "yewrod"@ && f[3].rod@ == "magicrod"@);
    assert(resource[resource.len() - 1] == 's');
    assert("yabbypot"@[7] == 't' && "oakrod"@[5] == 'd' && "yewrod"@[5] == 'd' && "magicrod"@[7] == 'd');
    assert(resource[resource.len() - 2] == 'g' && "berries"@[5] == 'e');
    if k < 4 {
        assert(r(f[k]));
        assert(k == 0 || k == 1 || k == 2 || k == 3);
    }
    let g = resource_giving(resource);
    let t = trees_table();
    lemma_first_at(t, g, 0);
    assert(t[0].item@ == "pine_logs"@ && t[1].item@ == "oak_logs"@);
    assert(t[2].item@ == "yew_logs"@ && t[3].item@ == "magic_logs"@);
    let n = first_at(t, g, 0);
    if n >= 4 {
        assert(!g(t[0]) && !g(t[1]) && !g(t[2]) && !g(t[3]));
    }
}

/// A rod is worth ten of the resource that the angler takes for it.
pub proof fn law_rod_worth_its_resource(rod: Seq<char>)
    requires
        fish_by_rod(rod) is Some,
    ensures
        sell_price(fish_by_rod(rod).unwrap().resource@) is Some,
        rod_price(rod) is Some,
        rod_price(rod).unwrap() == ANGLER_RESOURCE_QTY * sell_price(
            fish_by_rod(rod).unwrap().resource@,
        ).unwrap(),
{
    let f = fish_table();
    let k = first_at(f, fish_with_rod(rod), 0);
    lemma_first_at(f, fish_with_rod(rod), 0);
    let resource = fish_by_rod(rod).unwrap().resource@;
    assert(f[0].resource@ == "pine_logs"@ && f[1].resource@ == "oak_logs"@);
    assert(f[2].resource@ == "yew_logs"@ && f[3].resource@ == "magic_logs"@);
    assert(k == 0 || k == 1 || k == 2 || k == 3);
    lemma_logs(resource);
    lemma_first_at(f, fish_with_fish(resource), 0);
    assert forall|j: int| 0 <= j < 4 implies 4 <= (#[trigger] f[j]).sell <= 256 by {
        assert(j == 0 || j == 1 || j == 2 || j == 3);
    }
}

/// What armour is worth: the ore that it is made of.
pub open spec fn armor_price(item: Seq<char>) -> Option<i32> {
    match armor_of(item) {
        Some(a) => match sell_price(a.ore@) {
            Some(unit) => Some((unit * a.ore_qty) as i32),
            None => None,
        },
        None => None,
    }
}

/// What armour is worth.
pub fn armor_value(item: &str) -> (r: Option<i32>)
    ensures
        r == armor_price(item@),
        r matches Some(v) ==> 1 <= v <= 600000,
{
    match armor_def(item) {
        Some(a) => match sell_value(a.ore) {
            Some(unit) => {
                assert(5 <= unit * a.ore_qty <= 600000) by (nonlinear_arith)
                    requires
                        1 <= unit <= 60000,
                        5 <= a.ore_qty <= 10,
                ;
                Some(unit * a.ore_qty)
            },
            None => None,
        },
        None => None,
    }
}

/// What a sword is worth: the ore that it is made of.
pub open spec fn sword_price(item: Seq<char>) -> Option<i32> {
    match sword_of(item) {
        Some(s) => match sell_price(s.ore@) {
            Some(unit) => Some((unit * s.ore_qty) as i32),
            None => None,
        },
        None => None,
    }
}

/// What a sword is worth.
pub fn sword_value(item: &str) -> (r: Option<i32>)
    ensures
        r == sword_price(item@),
        r matches Some(v) ==> 1 <= v <= 600000,
{
    match sword_def(item) {
        Some(s) => match sell_value(s.ore) {
            Some(unit) => Some(unit * s.ore_qty),
            None => None,
        },
        None => None,
    }
}

/// What the shop asks for an item.
pub open spec fn shop_price(item: Seq<char>) -> Option<i32> {
    match tool_of(item) {
        Some(t) => Some(t.buy),
        None => None,
    }
}

/// What the shop asks for an item; only tools are for sale.
pub fn buy_price(item: &str) -> (r: Option<i32>)
    ensures
        r == shop_price(item@),
        r matches Some(v) ==> 10 <= v <= 30000,
{
    match tool_def(item) {
        Some(t) => Some(t.buy),
        None => None,
    }
}

/// What an item is worth: the shop's price, else the armour's, the sword's or
/// the trader's price.
pub open spec fn item_price(item: Seq<char>) -> Option<i32> {
    if shop_price(item) is Some {
        shop_price(item)
    } else if armor_price(item) is Some {
        armor_price(item)
    } else if sword_price(item) is Some {
        sword_price(item)
    } else {
        sell_price(item)
    }
}

/// A gathered thing is worth between one coin and 6000.
proof fn lemma_gathered_price(item: Seq<char>)
    ensures
        gathered_price(item) matches Some(v) ==> 1 <= v <= 6000,
        resource_price(item) matches Some(v) ==> 1 <= v <= 6000,
        fish_by_fish(item) matches Some(f) ==> 1 <= f.sell <= 6000,
{
    let (f, t, r) = (fish_table(), trees_table(), rocks_table());
    lemma_first_at(f, fish_with_fish(item), 0);
    lemma_first_at(t, resource_giving(item), 0);
    lemma_first_at(r, resource_giving(item), 0);
    assert forall|j: int| 0 <= j < 4 implies 1 <= (#[trigger] f[j]).sell <= 6000 && 1 <= t[j].sell
        <= 6000 && 1 <= r[j].sell <= 6000 by {
        assert(j == 0 || j == 1 || j == 2 || j == 3);
    }
    let i = first_at(f, fish_with_fish(item), 0);
    let k = first_at(t, resource_giving(item), 0);
    let n = first_at(r, resource_giving(item), 0);
    assert(f[i].sell == f[i].sell && f[k].sell == f[k].sell && f[n].sell == f[n].sell);
}

/// What the trader pays lies between one coin and 60000.
proof fn lemma_sell_price(item: Seq<char>)
    ensures
        sell_price(item) matches Some(v) ==> 1 <= v <= 60000,
{
    lemma_gathered_price(item);
    if let Some(f) = fish_by_rod(item) {
        lemma_gathered_price(f.resource@);
    }
}

/// What an item is worth lies between one coin and 600000.
pub proof fn lemma_item_price(item: Seq<char>)
    ensures
        item_price(item) matches Some(v) ==> 1 <= v <= 600000,
{
    lemma_sell_price(item);
    let t = tools_table();
    lemma_first_at(t, tool_named(item), 0);
    assert forall|j: int| 0 <= j < 8 implies 10 <= (#[trigger] t[j]).buy <= 30000 by {
        assert(j == 0 || j == 1 || j == 2 || j == 3 || j == 4 || j == 5 || j == 6 || j == 7);
    }
    if let Some(a) = armor_of(item) {
        lemma_sell_price(a.ore@);
        lemma_first_at(armors_table(), armor_named(item), 0);
        lemma_armor_ore(first_at(armors_table(), armor_named(item), 0));
        if let Some(unit) = sell_price(a.ore@) {
            assert(5 <= unit * a.ore_qty <= 600000) by (nonlinear_arith)
                requires
                    1 <= unit <= 60000,
                    5 <= a.ore_qty <= 10,
            ;
        }
    }
    if let Some(w) = sword_of(item) {
        lemma_sell_price(w.ore@);
        lemma_first_at(swords_table(), sword_named(item), 0);
        let k = first_at(swords_table(), sword_named(item), 0);
        assert(k == 0 || k == 1 || k == 2 || k == 3);
        assert(w.ore_qty == 10);
    }
}

/// Armour takes between five and ten ores.
proof fn lemma_armor_ore(k: int)
    requires
        0 <= k < 16,
    ensures
        5 <= armors_table()[k].ore_qty <= 10,
{
    assert(k == 0 || k == 1 || k == 2 || k == 3 || k == 4 || k == 5 || k == 6 || k == 7 || k == 8 || k
        == 9 || k == 10 || k == 11 || k == 12 || k == 13 || k == 14 || k == 15);
}

/// What an item is worth, if anything.
pub fn item_value(item: &str) -> (r: Option<i32>)
    ensures
        r == item_price(item@),
        r matches Some(v) ==> 1 <= v <= 600000,
{
    if let Some(v) = buy_price(item) {
        return Some(v);
    }
    if let Some(v) = armor_value(item) {
        return Some(v);
    }
    if let Some(v) = sword_value(item) {
        return Some(v);
    }
    sell_value(item)
}

/// The defence that one worn item adds.
pub open spec fn defence_of(item: Seq<char>) -> int {
    if item.len() == 0 {
        0
    } else {
        match armor_of(item) {
            Some(a) => a.defence as int,
            None => 0,
        }
    }
}

/// The defence that the worn armour adds: the sum over the five places.
pub open spec fn armor_bonus(e: EquipV) -> int {
    defence_of(e.helmet) + defence_of(e.chest) + defence_of(e.legs) + defence_of(e.left_hand)
        + defence_of(e.right_hand)
}

fn item_defence(item: &str) -> (r: i32)
    ensures
        r == defence_of(item@),
        0 <= r <= 80,
{
    if item.is_empty() {
        return 0;
    }
    match armor_def(item) {
        Some(a) => a.defence,
        None => 0,
    }
}

/// The defence that the worn armour adds.
pub fn armor_defence_bonus(equipment: &Equipment) -> (r: i32)
    ensures
        r == armor_bonus(equipment@),
        0 <= r <= 400,
{
    item_defence(equipment.helmet.as_str()) + item_defence(equipment.chest.as_str()) + item_defence(
        equipment.legs.as_str(),
    ) + item_defence(equipment.left_hand.as_str()) + item_defence(equipment.right_hand.as_str())
}

/// The damage that the sword in the right hand adds.
pub open spec fn weapon_bonus(e: EquipV) -> i32 {
    match sword_of(e.right_hand) {
        Some(s) => s.damage,
        None => 0,
    }
}

/// The damage that the sword in the right hand adds; 0 without one.
pub fn weapon_damage_bonus(equipment: &Equipment) -> (r: i32)
    ensures
        r == weapon_bonus(equipment@),
        0 <= r <= 80,
{
    match sword_def(equipment.right_hand.as_str()) {
        Some(s) => s.damage,
        None => 0,
    }
}

} // verus!
