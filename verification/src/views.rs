//! Two frames in JSON: the catalogues of shop, trader, blacksmith and angler, and what
//! a player sees of itself.

use vstd::prelude::*;
use crate::codec::{long_text, BufWriter};
use crate::defs::{
    armor_defs, armor_price, armor_value, armors_table, fish_defs, fish_min_level, fish_table,
    item_label, item_name, min_level, rock_defs, rocks_table, rod_price, rod_value, sword_defs,
    sword_price, sword_value, swords_table, tool_defs, tools_table, tree_defs, trees_table, ArmorDef,
    FishDef, ResourceDef, SwordDef, ToolDef, ANGLER_RESOURCE_QTY,
};
use crate::json::{
    array, array_text, json_string, quoted, stage_json, stage_text, truth, truth_text,
};
use crate::pools::PlayerV;
use crate::sim::{is_angel, is_angler, is_blacksmith, is_trader, Sim, SimV};
use crate::text::{decimal, int_text, nat_text};
use crate::tick::{derived, PlayerDerived};
use crate::types::{slots_of, texts_of, SlotV};
use crate::types::{InvSlot, UiState};
use crate::wire::{MSG_SERVER_CATALOGS, MSG_SERVER_YOUVIEW};

verus! {

/// A price, 0 where there is none.
pub open spec fn or_nothing(v: Option<i32>) -> int {
    match v {
        Some(x) => x as int,
        None => 0,
    }
}

fn or_zero(v: Option<i32>) -> (r: i32)
    ensures
        r == or_nothing(v),
{
    match v {
        Some(x) => x,
        None => 0,
    }
}

/// A tool as the shop lists it.
pub open spec fn shop_json(d: ToolDef) -> Seq<char> {
    "{\"buy\":"@ + decimal(d.buy as int)
        + ",\"item\":"@ + quoted(d.item@)
        + ",\"kind\":"@ + quoted(d.kind@)
        + ",\"name\":"@ + quoted(d.name@)
        + ",\"tier\":"@ + decimal(d.tier as int)
        + "}"@
}

fn shop_text(d: &ToolDef) -> (r: String)
    ensures
        r@ == shop_json(*d),
{
    let mut out: String = "{\"buy\":".to_owned();
    out.append(int_text(d.buy as i64).as_str());
    out.append(",\"item\":");
    out.append(json_string(d.item).as_str());
    out.append(",\"kind\":");
    out.append(json_string(d.kind).as_str());
    out.append(",\"name\":");
    out.append(json_string(d.name).as_str());
    out.append(",\"tier\":");
    out.append(int_text(d.tier as i64).as_str());
    out.append("}");
    out
}

/// A tool as the trader lists it.
pub open spec fn tool_sale_json(d: ToolDef) -> Seq<char> {
    "{\"item\":"@ + quoted(d.item@)
        + ",\"name\":"@ + quoted(d.name@)
        + ",\"sell\":"@ + decimal(d.buy as int)
        + ",\"tier\":"@ + decimal(d.tier as int)
        + "}"@
}

fn tool_sale_text(d: &ToolDef) -> (r: String)
    ensures
        r@ == tool_sale_json(*d),
{
    let mut out: String = "{\"item\":".to_owned();
    out.append(json_string(d.item).as_str());
    out.append(",\"name\":");
    out.append(json_string(d.name).as_str());
    out.append(",\"sell\":");
    out.append(int_text(d.buy as i64).as_str());
    out.append(",\"tier\":");
    out.append(int_text(d.tier as i64).as_str());
    out.append("}");
    out
}

/// A log or an ore as the trader lists it.
pub open spec fn resource_sale_json(d: ResourceDef) -> Seq<char> {
    "{\"item\":"@ + quoted(d.item@)
        + ",\"name\":"@ + quoted(d.name@)
        + ",\"sell\":"@ + decimal(d.sell as int)
        + ",\"tier\":"@ + decimal(d.tier as int)
        + ",\"xp\":"@ + decimal(d.xp as int)
        + "}"@
}

fn resource_sale_text(d: &ResourceDef) -> (r: String)
    ensures
        r@ == resource_sale_json(*d),
{
    let mut out: String = "{\"item\":".to_owned();
    out.append(json_string(d.item).as_str());
    out.append(",\"name\":");
    out.append(json_string(d.name).as_str());
    out.append(",\"sell\":");
    out.append(int_text(d.sell as i64).as_str());
    out.append(",\"tier\":");
    out.append(int_text(d.tier as i64).as_str());
    out.append(",\"xp\":");
    out.append(int_text(d.xp as i64).as_str());
    out.append("}");
    out
}

/// A fish as the trader lists it.
pub open spec fn fish_sale_json(d: FishDef) -> Seq<char> {
    "{\"item\":"@ + quoted(d.fish@)
        + ",\"name\":"@ + quoted(d.fish_name@)
        + ",\"sell\":"@ + decimal(d.sell as int)
        + ",\"tier\":"@ + decimal(d.tier + 1)
        + ",\"xp\":"@ + decimal(d.xp as int)
        + "}"@
}

fn fish_sale_text(d: &FishDef) -> (r: String)
    ensures
        r@ == fish_sale_json(*d),
{
    let mut out: String = "{\"item\":".to_owned();
    out.append(json_string(d.fish).as_str());
    out.append(",\"name\":");
    out.append(json_string(d.fish_name).as_str());
    out.append(",\"sell\":");
    out.append(int_text(d.sell as i64).as_str());
    out.append(",\"tier\":");
    out.append(int_text((d.tier as i64 + 1) as i64).as_str());
    out.append(",\"xp\":");
    out.append(int_text(d.xp as i64).as_str());
    out.append("}");
    out
}

/// A rod as the trader lists it.
pub open spec fn rod_sale_json(d: FishDef) -> Seq<char> {
    "{\"item\":"@ + quoted(d.rod@)
        + ",\"name\":"@ + quoted(d.rod_name@)
        + ",\"sell\":"@ + decimal(or_nothing(rod_price(d.rod@)))
        + ",\"tier\":"@ + decimal(d.tier + 1)
        + "}"@
}

fn rod_sale_text(d: &FishDef) -> (r: String)
    ensures
        r@ == rod_sale_json(*d),
{
    let mut out: String = "{\"item\":".to_owned();
    out.append(json_string(d.rod).as_str());
    out.append(",\"name\":");
    out.append(json_string(d.rod_name).as_str());
    out.append(",\"sell\":");
    out.append(int_text(or_zero(rod_value(d.rod)) as i64).as_str());
    out.append(",\"tier\":");
    out.append(int_text((d.tier as i64 + 1) as i64).as_str());
    out.append("}");
    out
}

/// A piece of armour as the trader lists it.
pub open spec fn armor_sale_json(d: ArmorDef) -> Seq<char> {
    "{\"item\":"@ + quoted(d.item@)
        + ",\"name\":"@ + quoted(d.name@)
        + ",\"sell\":"@ + decimal(or_nothing(armor_price(d.item@)))
        + ",\"tier\":"@ + decimal(d.tier as int)
        + "}"@
}

fn armor_sale_text(d: &ArmorDef) -> (r: String)
    ensures
        r@ == armor_sale_json(*d),
{
    let mut out: String = "{\"item\":".to_owned();
    out.append(json_string(d.item).as_str());
    out.append(",\"name\":");
    out.append(json_string(d.name).as_str());
    out.append(",\"sell\":");
    out.append(int_text(or_zero(armor_value(d.item)) as i64).as_str());
    out.append(",\"tier\":");
    out.append(int_text(d.tier as i64).as_str());
    out.append("}");
    out
}

/// A sword as the trader lists it.
pub open spec fn sword_sale_json(d: SwordDef) -> Seq<char> {
    "{\"item\":"@ + quoted(d.item@)
        + ",\"name\":"@ + quoted(d.name@)
        + ",\"sell\":"@ + decimal(or_nothing(sword_price(d.item@)))
        + ",\"tier\":"@ + decimal(d.tier as int)
        + "}"@
}

fn sword_sale_text(d: &SwordDef) -> (r: String)
    ensures
        r@ == sword_sale_json(*d),
{
    let mut out: String = "{\"item\":".to_owned();
    out.append(json_string(d.item).as_str());
    out.append(",\"name\":");
    out.append(json_string(d.name).as_str());
    out.append(",\"sell\":");
    out.append(int_text(or_zero(sword_value(d.item)) as i64).as_str());
    out.append(",\"tier\":");
    out.append(int_text(d.tier as i64).as_str());
    out.append("}");
    out
}

/// A piece of armour as the blacksmith lists it.
pub open spec fn armor_forge_json(d: ArmorDef) -> Seq<char> {
    "{\"damage\":"@ + decimal(0)
        + ",\"defence\":"@ + decimal(d.defence as int)
        + ",\"item\":"@ + quoted(d.item@)
        + ",\"name\":"@ + quoted(d.name@)
        + ",\"ore\":"@ + quoted(d.ore@)
        + ",\"ore_qty\":"@ + decimal(d.ore_qty as int)
        + ",\"slot\":"@ + quoted(d.slot@)
        + ",\"tier\":"@ + decimal(d.tier as int)
        + ",\"value\":"@ + decimal(or_nothing(armor_price(d.item@)))
        + "}"@
}

fn armor_forge_text(d: &ArmorDef) -> (r: String)
    ensures
        r@ == armor_forge_json(*d),
{
    let mut out: String = "{\"damage\":".to_owned();
    out.append(int_text(0i32 as i64).as_str());
    out.append(",\"defence\":");
    out.append(int_text(d.defence as i64).as_str());
    out.append(",\"item\":");
    out.append(json_string(d.item).as_str());
    out.append(",\"name\":");
    out.append(json_string(d.name).as_str());
    out.append(",\"ore\":");
    out.append(json_string(d.ore).as_str());
    out.append(",\"ore_qty\":");
    out.append(int_text(d.ore_qty as i64).as_str());
    out.append(",\"slot\":");
    out.append(json_string(d.slot).as_str());
    out.append(",\"tier\":");
    out.append(int_text(d.tier as i64).as_str());
    out.append(",\"value\":");
    out.append(int_text(or_zero(armor_value(d.item)) as i64).as_str());
    out.append("}");
    out
}

/// A sword as the blacksmith lists it.
pub open spec fn sword_forge_json(d: SwordDef) -> Seq<char> {
    "{\"damage\":"@ + decimal(d.damage as int)
        + ",\"defence\":"@ + decimal(0)
        + ",\"item\":"@ + quoted(d.item@)
        + ",\"name\":"@ + quoted(d.name@)
        + ",\"ore\":"@ + quoted(d.ore@)
        + ",\"ore_qty\":"@ + decimal(d.ore_qty as int)
        + ",\"slot\":"@ + quoted("right_hand"@)
        + ",\"tier\":"@ + decimal(d.tier as int)
        + ",\"value\":"@ + decimal(or_nothing(sword_price(d.item@)))
        + "}"@
}

fn sword_forge_text(d: &SwordDef) -> (r: String)
    ensures
        r@ == sword_forge_json(*d),
{
    let mut out: String = "{\"damage\":".to_owned();
    out.append(int_text(d.damage as i64).as_str());
    out.append(",\"defence\":");
    out.append(int_text(0i32 as i64).as_str());
    out.append(",\"item\":");
    out.append(json_string(d.item).as_str());
    out.append(",\"name\":");
    out.append(json_string(d.name).as_str());
    out.append(",\"ore\":");
    out.append(json_string(d.ore).as_str());
    out.append(",\"ore_qty\":");
    out.append(int_text(d.ore_qty as i64).as_str());
    out.append(",\"slot\":");
    out.append(json_string("right_hand").as_str());
    out.append(",\"tier\":");
    out.append(int_text(d.tier as i64).as_str());
    out.append(",\"value\":");
    out.append(int_text(or_zero(sword_value(d.item)) as i64).as_str());
    out.append("}");
    out
}

/// A rod as the angler lists it.
pub open spec fn angler_json(d: FishDef) -> Seq<char> {
    "{\"fish\":"@ + quoted(d.fish@)
        + ",\"fish_name\":"@ + quoted(d.fish_name@)
        + ",\"heal\":"@ + decimal(d.heal as int)
        + ",\"min_level\":"@ + decimal(min_level(d.tier) as int)
        + ",\"resource\":"@ + quoted(d.resource@)
        + ",\"resource_qty\":"@ + decimal(ANGLER_RESOURCE_QTY as int)
        + ",\"rod\":"@ + quoted(d.rod@)
        + ",\"rod_name\":"@ + quoted(d.rod_name@)
        + ",\"sell\":"@ + decimal(d.sell as int)
        + ",\"tier\":"@ + decimal(d.tier + 1)
        + ",\"xp\":"@ + decimal(d.xp as int)
        + "}"@
}

fn angler_text(d: &FishDef) -> (r: String)
    ensures
        r@ == angler_json(*d),
{
    let mut out: String = "{\"fish\":".to_owned();
    out.append(json_string(d.fish).as_str());
    out.append(",\"fish_name\":");
    out.append(json_string(d.fish_name).as_str());
    out.append(",\"heal\":");
    out.append(int_text(d.heal as i64).as_str());
    out.append(",\"min_level\":");
    out.append(int_text(fish_min_level(d.tier) as i64).as_str());
    out.append(",\"resource\":");
    out.append(json_string(d.resource).as_str());
    out.append(",\"resource_qty\":");
    out.append(int_text(ANGLER_RESOURCE_QTY as i64).as_str());
    out.append(",\"rod\":");
    out.append(json_string(d.rod).as_str());
    out.append(",\"rod_name\":");
    out.append(json_string(d.rod_name).as_str());
    out.append(",\"sell\":");
    out.append(int_text(d.sell as i64).as_str());
    out.append(",\"tier\":");
    out.append(int_text((d.tier as i64 + 1) as i64).as_str());
    out.append(",\"xp\":");
    out.append(int_text(d.xp as i64).as_str());
    out.append("}");
    out
}

/// The berries as the trader lists them.
pub open spec fn berries_json() -> Seq<char> {
    "{\"item\":\"berries\",\"name\":\"Berries\",\"sell\":1,\"tier\":1,\"xp\":0}"@
}

/// The rows of the table in JSON.
pub open spec fn shop_rows() -> Seq<Seq<char>> {
    Seq::new(8, |k: int| shop_json(tools_table()[k]))
}

fn push_shop(out: &mut Vec<String>)
    ensures
        texts_of(final(out)@) == texts_of(old(out)@) + shop_rows(),
{
    let t: [ToolDef; 8] = tool_defs();
    let ghost top = texts_of(out@);
    let mut k: usize = 0;
    assert(texts_of(out@) =~= top + shop_rows().take(0));
    while k < 8
        invariant
            k <= 8,
            t@ == tools_table(),
            texts_of(out@) == top + shop_rows().take(k as int),
        decreases 8 - k,
    {
        let ghost had = texts_of(out@);
        let s: String = shop_text(&t[k]);
        out.push(s);
        assert(texts_of(out@) =~= had.push(s@));
        assert(texts_of(out@) =~= top + shop_rows().take(k + 1));
        k = k + 1;
    }
    assert(shop_rows().take(8) =~= shop_rows());
}

/// The rows of the table in JSON.
pub open spec fn tool_sale_rows() -> Seq<Seq<char>> {
    Seq::new(8, |k: int| tool_sale_json(tools_table()[k]))
}

fn push_tool_sale(out: &mut Vec<String>)
    ensures
        texts_of(final(out)@) == texts_of(old(out)@) + tool_sale_rows(),
{
    let t: [ToolDef; 8] = tool_defs();
    let ghost top = texts_of(out@);
    let mut k: usize = 0;
    assert(texts_of(out@) =~= top + tool_sale_rows().take(0));
    while k < 8
        invariant
            k <= 8,
            t@ == tools_table(),
            texts_of(out@) == top + tool_sale_rows().take(k as int),
        decreases 8 - k,
    {
        let ghost had = texts_of(out@);
        let s: String = tool_sale_text(&t[k]);
        out.push(s);
        assert(texts_of(out@) =~= had.push(s@));
        assert(texts_of(out@) =~= top + tool_sale_rows().take(k + 1));
        k = k + 1;
    }
    assert(tool_sale_rows().take(8) =~= tool_sale_rows());
}

/// The rows of the table in JSON.
pub open spec fn tree_sale_rows() -> Seq<Seq<char>> {
    Seq::new(4, |k: int| resource_sale_json(trees_table()[k]))
}

fn push_tree_sale(out: &mut Vec<String>)
    ensures
        texts_of(final(out)@) == texts_of(old(out)@) + tree_sale_rows(),
{
    let t: [ResourceDef; 4] = tree_defs();
    let ghost top = texts_of(out@);
    let mut k: usize = 0;
    assert(texts_of(out@) =~= top + tree_sale_rows().take(0));
    while k < 4
        invariant
            k <= 4,
            t@ == trees_table(),
            texts_of(out@) == top + tree_sale_rows().take(k as int),
        decreases 4 - k,
    {
        let ghost had = texts_of(out@);
        let s: String = resource_sale_text(&t[k]);
        out.push(s);
        assert(texts_of(out@) =~= had.push(s@));
        assert(texts_of(out@) =~= top + tree_sale_rows().take(k + 1));
        k = k + 1;
    }
    assert(tree_sale_rows().take(4) =~= tree_sale_rows());
}

/// The rows of the table in JSON.
pub open spec fn rock_sale_rows() -> Seq<Seq<char>> {
    Seq::new(4, |k: int| resource_sale_json(rocks_table()[k]))
}

fn push_rock_sale(out: &mut Vec<String>)
    ensures
        texts_of(final(out)@) == texts_of(old(out)@) + rock_sale_rows(),
{
    let t: [ResourceDef; 4] = rock_defs();
    let ghost top = texts_of(out@);
    let mut k: usize = 0;
    assert(texts_of(out@) =~= top + rock_sale_rows().take(0));
    while k < 4
        invariant
            k <= 4,
            t@ == rocks_table(),
            texts_of(out@) == top + rock_sale_rows().take(k as int),
        decreases 4 - k,
    {
        let ghost had = texts_of(out@);
        let s: String = resource_sale_text(&t[k]);
        out.push(s);
        assert(texts_of(out@) =~= had.push(s@));
        assert(texts_of(out@) =~= top + rock_sale_rows().take(k + 1));
        k = k + 1;
    }
    assert(rock_sale_rows().take(4) =~= rock_sale_rows());
}

/// The rows of the table in JSON.
pub open spec fn armor_sale_rows() -> Seq<Seq<char>> {
    Seq::new(16, |k: int| armor_sale_json(armors_table()[k]))
}

fn push_armor_sale(out: &mut Vec<String>)
    ensures
        texts_of(final(out)@) == texts_of(old(out)@) + armor_sale_rows(),
{
    let t: [ArmorDef; 16] = armor_defs();
    let ghost top = texts_of(out@);
    let mut k: usize = 0;
    assert(texts_of(out@) =~= top + armor_sale_rows().take(0));
    while k < 16
        invariant
            k <= 16,
            t@ == armors_table(),
            texts_of(out@) == top + armor_sale_rows().take(k as int),
        decreases 16 - k,
    {
        let ghost had = texts_of(out@);
        let s: String = armor_sale_text(&t[k]);
        out.push(s);
        assert(texts_of(out@) =~= had.push(s@));
        assert(texts_of(out@) =~= top + armor_sale_rows().take(k + 1));
        k = k + 1;
    }
    assert(armor_sale_rows().take(16) =~= armor_sale_rows());
}

/// The rows of the table in JSON.
pub open spec fn sword_sale_rows() -> Seq<Seq<char>> {
    Seq::new(4, |k: int| sword_sale_json(swords_table()[k]))
}

fn push_sword_sale(out: &mut Vec<String>)
    ensures
        texts_of(final(out)@) == texts_of(old(out)@) + sword_sale_rows(),
{
    let t: [SwordDef; 4] = sword_defs();
    let ghost top = texts_of(out@);
    let mut k: usize = 0;
    assert(texts_of(out@) =~= top + sword_sale_rows().take(0));
    while k < 4
        invariant
            k <= 4,
            t@ == swords_table(),
            texts_of(out@) == top + sword_sale_rows().take(k as int),
        decreases 4 - k,
    {
        let ghost had = texts_of(out@);
        let s: String = sword_sale_text(&t[k]);
        out.push(s);
        assert(texts_of(out@) =~= had.push(s@));
        assert(texts_of(out@) =~= top + sword_sale_rows().take(k + 1));
        k = k + 1;
    }
    assert(sword_sale_rows().take(4) =~= sword_sale_rows());
}

/// The rows of the table in JSON.
pub open spec fn armor_forge_rows() -> Seq<Seq<char>> {
    Seq::new(16, |k: int| armor_forge_json(armors_table()[k]))
}

fn push_armor_forge(out: &mut Vec<String>)
    ensures
        texts_of(final(out)@) == texts_of(old(out)@) + armor_forge_rows(),
{
    let t: [ArmorDef; 16] = armor_defs();
    let ghost top = texts_of(out@);
    let mut k: usize = 0;
    assert(texts_of(out@) =~= top + armor_forge_rows().take(0));
    while k < 16
        invariant
            k <= 16,
            t@ == armors_table(),
            texts_of(out@) == top + armor_forge_rows().take(k as int),
        decreases 16 - k,
    {
        let ghost had = texts_of(out@);
        let s: String = armor_forge_text(&t[k]);
        out.push(s);
        assert(texts_of(out@) =~= had.push(s@));
        assert(texts_of(out@) =~= top + armor_forge_rows().take(k + 1));
        k = k + 1;
    }
    assert(armor_forge_rows().take(16) =~= armor_forge_rows());
}

/// The rows of the table in JSON.
pub open spec fn sword_forge_rows() -> Seq<Seq<char>> {
    Seq::new(4, |k: int| sword_forge_json(swords_table()[k]))
}

fn push_sword_forge(out: &mut Vec<String>)
    ensures
        texts_of(final(out)@) == texts_of(old(out)@) + sword_forge_rows(),
{
    let t: [SwordDef; 4] = sword_defs();
    let ghost top = texts_of(out@);
    let mut k: usize = 0;
    assert(texts_of(out@) =~= top + sword_forge_rows().take(0));
    while k < 4
        invariant
            k <= 4,
            t@ == swords_table(),
            texts_of(out@) == top + sword_forge_rows().take(k as int),
        decreases 4 - k,
    {
        let ghost had = texts_of(out@);
        let s: String = sword_forge_text(&t[k]);
        out.push(s);
        assert(texts_of(out@) =~= had.push(s@));
        assert(texts_of(out@) =~= top + sword_forge_rows().take(k + 1));
        k = k + 1;
    }
    assert(sword_forge_rows().take(4) =~= sword_forge_rows());
}

/// The rows of the table in JSON.
pub open spec fn angler_rows() -> Seq<Seq<char>> {
    Seq::new(4, |k: int| angler_json(fish_table()[k]))
}

fn push_angler(out: &mut Vec<String>)
    ensures
        texts_of(final(out)@) == texts_of(old(out)@) + angler_rows(),
{
    let t: [FishDef; 4] = fish_defs();
    let ghost top = texts_of(out@);
    let mut k: usize = 0;
    assert(texts_of(out@) =~= top + angler_rows().take(0));
    while k < 4
        invariant
            k <= 4,
            t@ == fish_table(),
            texts_of(out@) == top + angler_rows().take(k as int),
        decreases 4 - k,
    {
        let ghost had = texts_of(out@);
        let s: String = angler_text(&t[k]);
        out.push(s);
        assert(texts_of(out@) =~= had.push(s@));
        assert(texts_of(out@) =~= top + angler_rows().take(k + 1));
        k = k + 1;
    }
    assert(angler_rows().take(4) =~= angler_rows());
}

/// Each fish and then its rod, as the trader lists them.
pub open spec fn catch_rows() -> Seq<Seq<char>> {
    Seq::new(
        8,
        |k: int|
            if k % 2 == 0 {
                fish_sale_json(fish_table()[k / 2])
            } else {
                rod_sale_json(fish_table()[k / 2])
            },
    )
}

fn push_catch(out: &mut Vec<String>)
    ensures
        texts_of(final(out)@) == texts_of(old(out)@) + catch_rows(),
{
    let t: [FishDef; 4] = fish_defs();
    let ghost top = texts_of(out@);
    let mut k: usize = 0;
    assert(texts_of(out@) =~= top + catch_rows().take(0));
    while k < 4
        invariant
            k <= 4,
            t@ == fish_table(),
            texts_of(out@) == top + catch_rows().take(2 * k as int),
        decreases 4 - k,
    {
        let ghost had = texts_of(out@);
        let a: String = fish_sale_text(&t[k]);
        let b: String = rod_sale_text(&t[k]);
        out.push(a);
        out.push(b);
        assert(texts_of(out@) =~= had.push(a@).push(b@));
        assert(texts_of(out@) =~= top + catch_rows().take(2 * (k + 1) as int));
        k = k + 1;
    }
    assert(catch_rows().take(8) =~= catch_rows());
}

/// What the trader buys, in the order of the catalogue.
pub open spec fn sale_rows() -> Seq<Seq<char>> {
    tool_sale_rows() + tree_sale_rows() + rock_sale_rows() + seq![berries_json()] + catch_rows()
        + armor_sale_rows() + sword_sale_rows()
}

/// The catalogues in JSON.
#[verifier::opaque]
pub open spec fn catalogs_json() -> Seq<char> {
    "{\"angler\":"@ + array(angler_rows()) + ",\"forge\":"@ + array(
        armor_forge_rows() + sword_forge_rows(),
    ) + ",\"sells\":"@ + array(sale_rows()) + ",\"shop\":"@ + array(shop_rows()) + "}"@
}

fn sales_text() -> (r: String)
    ensures
        r@ == array(sale_rows()),
{
    let mut out: Vec<String> = Vec::new();
    assert(texts_of(out@) =~= Seq::<Seq<char>>::empty());
    push_tool_sale(&mut out);
    assert(texts_of(out@) =~= tool_sale_rows());
    push_tree_sale(&mut out);
    push_rock_sale(&mut out);
    let ghost had = texts_of(out@);
    out.push(
        "{\"item\":\"berries\",\"name\":\"Berries\",\"sell\":1,\"tier\":1,\"xp\":0}".to_owned(),
    );
    assert(texts_of(out@) =~= had + seq![berries_json()]);
    push_catch(&mut out);
    push_armor_sale(&mut out);
    push_sword_sale(&mut out);
    array_text(&out)
}

fn forge_text() -> (r: String)
    ensures
        r@ == array(armor_forge_rows() + sword_forge_rows()),
{
    let mut out: Vec<String> = Vec::new();
    assert(texts_of(out@) =~= Seq::<Seq<char>>::empty());
    push_armor_forge(&mut out);
    assert(texts_of(out@) =~= armor_forge_rows());
    push_sword_forge(&mut out);
    array_text(&out)
}

fn shop_rows_text() -> (r: String)
    ensures
        r@ == array(shop_rows()),
{
    let mut out: Vec<String> = Vec::new();
    assert(texts_of(out@) =~= Seq::<Seq<char>>::empty());
    push_shop(&mut out);
    assert(texts_of(out@) =~= shop_rows());
    array_text(&out)
}

fn angler_rows_text() -> (r: String)
    ensures
        r@ == array(angler_rows()),
{
    let mut out: Vec<String> = Vec::new();
    assert(texts_of(out@) =~= Seq::<Seq<char>>::empty());
    push_angler(&mut out);
    assert(texts_of(out@) =~= angler_rows());
    array_text(&out)
}

/// The frame with the catalogues.
pub fn encode_catalogs() -> (r: Vec<u8>)
    ensures
        r@ == seq![MSG_SERVER_CATALOGS] + long_text(catalogs_json()),
{
    reveal(catalogs_json);
    let mut blob: String = "{\"angler\":".to_owned();
    blob.append(angler_rows_text().as_str());
    blob.append(",\"forge\":");
    blob.append(forge_text().as_str());
    blob.append(",\"sells\":");
    blob.append(sales_text().as_str());
    blob.append(",\"shop\":");
    blob.append(shop_rows_text().as_str());
    blob.append("}");
    let mut w = BufWriter::new();
    w.u8(MSG_SERVER_CATALOGS);
    assert(w@ =~= seq![MSG_SERVER_CATALOGS]);
    w.str_u16(blob.as_str());
    w.into_vec()
}

/// An offered slot in JSON.
pub open spec fn offer_item_json(inv: Seq<SlotV>, slot: usize) -> Seq<char> {
    let s = inv[slot as int];
    "{\"item\":"@ + quoted(s.item) + ",\"name\":"@ + quoted(item_label(s.item)) + ",\"qty\":"@
        + decimal(s.qty as int) + ",\"slot\":"@ + decimal(slot as int) + "}"@
}

/// The offered slots that hold something, in JSON.
pub open spec fn offer_rows(inv: Seq<SlotV>, slots: Seq<usize>) -> Seq<Seq<char>>
    decreases slots.len(),
{
    if slots.len() == 0 {
        Seq::empty()
    } else {
        let rest = offer_rows(inv, slots.drop_last());
        let slot = slots.last();
        if slot < inv.len() && inv[slot as int].item.len() > 0 && inv[slot as int].qty > 0 {
            rest.push(offer_item_json(inv, slot))
        } else {
            rest
        }
    }
}

fn offer_view(inv: &[InvSlot], slots: &[usize]) -> (r: String)
    ensures
        r@ == array(offer_rows(slots_of(inv@), slots@)),
{
    let ghost v = slots_of(inv@);
    let mut out: Vec<String> = Vec::new();
    let mut k: usize = 0;
    assert(texts_of(out@) =~= Seq::<Seq<char>>::empty());
    assert(slots@.take(0) =~= Seq::<usize>::empty());
    while k < slots.len()
        invariant
            k <= slots.len(),
            v == slots_of(inv@),
            texts_of(out@) == offer_rows(v, slots@.take(k as int)),
        decreases slots.len() - k,
    {
        assert(slots@.take(k + 1).drop_last() =~= slots@.take(k as int));
        let slot: usize = slots[k];
        if slot < inv.len() && !inv[slot].item.as_str().is_empty() && inv[slot].qty > 0 {
            let ghost had = texts_of(out@);
            let mut s: String = "{\"item\":".to_owned();
            s.append(json_string(inv[slot].item.as_str()).as_str());
            s.append(",\"name\":");
            s.append(json_string(item_name(inv[slot].item.as_str())).as_str());
            s.append(",\"qty\":");
            s.append(int_text(inv[slot].qty as i64).as_str());
            s.append(",\"slot\":");
            s.append(nat_text(slot as u64).as_str());
            s.append("}");
            out.push(s);
            assert(texts_of(out@) =~= had.push(s@));
        }
        k = k + 1;
    }
    assert(slots@.take(k as int) =~= slots@);
    array_text(&out)
}

/// Numbers in decimal.
pub open spec fn decimals(v: Seq<usize>) -> Seq<Seq<char>> {
    Seq::new(v.len(), |k: int| decimal(v[k] as int))
}

fn numbers_text(v: &Vec<usize>) -> (r: String)
    ensures
        r@ == array(decimals(v@)),
{
    let mut out: Vec<String> = Vec::new();
    let mut k: usize = 0;
    while k < v.len()
        invariant
            k <= v.len(),
            out@.len() == k,
            forall|j: int| 0 <= j < k ==> (#[trigger] out@[j])@ == decimal(v@[j] as int),
        decreases v.len() - k,
    {
        out.push(nat_text(v[k] as u64));
        k = k + 1;
    }
    assert(texts_of(out@) =~= decimals(v@));
    array_text(&out)
}

/// A trade as one side sees it, in JSON.
pub open spec fn trade_json(you: PlayerV, partner_id: u32, them: PlayerV) -> Seq<char> {
    "{\"open\":true,\"partner_id\":"@ + decimal(partner_id as int) + ",\"partner_name\":"@
        + quoted(them.name) + ",\"stage\":"@ + stage_json(you.trade.stage)
        + ",\"their_accepted\":"@ + truth(them.trade.accepted) + ",\"their_confirmed\":"@ + truth(
        them.trade.confirmed,
    ) + ",\"their_offer\":"@ + array(offer_rows(them.inv, them.trade.offer))
        + ",\"your_accepted\":"@ + truth(you.trade.accepted) + ",\"your_confirmed\":"@ + truth(
        you.trade.confirmed,
    ) + ",\"your_offer\":"@ + array(offer_rows(you.inv, you.trade.offer))
        + ",\"your_offer_slots\":"@ + array(decimals(you.trade.offer)) + "}"@
}

impl SimV {
    /// The trade of a player in JSON; nothing where its partner is not in it.
    pub open spec fn trade_view(self, pid: u16) -> Seq<char> {
        let you = self.p(pid);
        match you.trade.partner {
            Some(o) => if self.players.is_live(o as int)
                && self.players.slots[o as int].trade.partner == Some(pid as u32) {
                trade_json(you, o, self.players.slots[o as int])
            } else {
                "null"@
            },
            None => "null"@,
        }
    }

    /// What a player sees of itself, in JSON. A window shows only next to the one it
    /// belongs to.
    pub open spec fn you_json(self, pid: u16) -> Seq<char> {
        let p = self.p(pid);
        let d = derived(p);
        "{\"angel_modal_open\":"@ + truth(p.ui.angel_modal_open && self.near(pid, is_angel()))
            + ",\"angler_open\":"@ + truth(p.ui.angler_open && self.near(pid, is_angler()))
            + ",\"armor_defence\":"@ + decimal(d.armor_defence as int) + ",\"axe_tier\":"@ + decimal(
            d.axe_tier as int,
        ) + ",\"forge_open\":"@ + truth(p.ui.forge_open && self.near(pid, is_blacksmith()))
            + ",\"pickaxe_tier\":"@ + decimal(d.pickaxe_tier as int) + ",\"player_trade\":"@
            + self.trade_view(pid) + ",\"rod_tier\":"@ + decimal(d.rod_tier as int)
            + ",\"trade_open\":"@ + truth(p.ui.trade_open && self.near(pid, is_trader()))
            + ",\"weapon_damage\":"@ + decimal(d.weapon_damage as int) + "}"@
    }

    /// The frame with what a player sees of itself; for one that is not there only
    /// the byte of its kind.
    #[verifier::opaque]
    pub open spec fn you_frame(self, pid: u16) -> Seq<u8> {
        if self.players.is_live(pid as int) {
            seq![MSG_SERVER_YOUVIEW] + long_text(self.you_json(pid))
        } else {
            seq![MSG_SERVER_YOUVIEW]
        }
    }
}

fn trade_text(sim: &Sim, i: usize, partner_id: u32) -> (r: String)
    requires
        sim.wf(),
        i < sim@.players.slots.len(),
        partner_id < sim@.players.slots.len(),
    ensures
        r@ == trade_json(
            sim@.players.slots[i as int],
            partner_id,
            sim@.players.slots[partner_id as int],
        ),
{
    let p: usize = partner_id as usize;
    let mut s: String = "{\"open\":true,\"partner_id\":".to_owned();
    s.append(nat_text(partner_id as u64).as_str());
    s.append(",\"partner_name\":");
    s.append(json_string(sim.players.name[p].as_str()).as_str());
    s.append(",\"stage\":");
    s.append(stage_text(sim.players.trade[i].stage));
    s.append(",\"their_accepted\":");
    s.append(truth_text(sim.players.trade[p].accepted));
    s.append(",\"their_confirmed\":");
    s.append(truth_text(sim.players.trade[p].confirmed));
    s.append(",\"their_offer\":");
    s.append(
        offer_view(
            sim.players.inv[p].as_slice(),
            sim.players.trade[p].offer.as_slice(),
        ).as_str(),
    );
    s.append(",\"your_accepted\":");
    s.append(truth_text(sim.players.trade[i].accepted));
    s.append(",\"your_confirmed\":");
    s.append(truth_text(sim.players.trade[i].confirmed));
    s.append(",\"your_offer\":");
    s.append(
        offer_view(
            sim.players.inv[i].as_slice(),
            sim.players.trade[i].offer.as_slice(),
        ).as_str(),
    );
    s.append(",\"your_offer_slots\":");
    s.append(numbers_text(&sim.players.trade[i].offer).as_str());
    s.append("}");
    s
}

fn trade_view(sim: &Sim, pid: u16) -> (r: String)
    requires
        sim.wf(),
        sim@.has(pid),
    ensures
        r@ == sim@.trade_view(pid),
{
    let i: usize = pid as usize;
    if let Some(o) = sim.players.trade[i].partner {
        let p: usize = o as usize;
        if p < sim.players.alive.len() && sim.players.alive[p] && sim.players.trade[p].partner
            == Some(pid as u32) {
            return trade_text(sim, i, o);
        }
    }
    "null".to_owned()
}

/// The frame with what a player sees of itself.
pub fn encode_youview(sim: &Sim, pid: u16) -> (r: Vec<u8>)
    requires
        sim.wf(),
    ensures
        r@ == sim@.you_frame(pid),
{
    reveal(SimV::you_frame);
    let mut w = BufWriter::new();
    w.u8(MSG_SERVER_YOUVIEW);
    assert(w@ =~= seq![MSG_SERVER_YOUVIEW]);
    if !sim.players.is_alive(pid) {
        return w.into_vec();
    }
    let i: usize = pid as usize;
    let d: PlayerDerived = sim.player_derived(pid);
    let ui: UiState = sim.players.ui[i];
    let mut s: String = "{\"angel_modal_open\":".to_owned();
    s.append(truth_text(ui.angel_modal_open && sim.near_angel(pid)));
    s.append(",\"angler_open\":");
    s.append(truth_text(ui.angler_open && sim.near_angler(pid)));
    s.append(",\"armor_defence\":");
    s.append(int_text(d.armor_defence as i64).as_str());
    s.append(",\"axe_tier\":");
    s.append(int_text(d.axe_tier as i64).as_str());
    s.append(",\"forge_open\":");
    s.append(truth_text(ui.forge_open && sim.near_blacksmith(pid)));
    s.append(",\"pickaxe_tier\":");
    s.append(int_text(d.pickaxe_tier as i64).as_str());
    s.append(",\"player_trade\":");
    s.append(trade_view(sim, pid).as_str());
    s.append(",\"rod_tier\":");
    s.append(int_text(d.rod_tier as i64).as_str());
    s.append(",\"trade_open\":");
    s.append(truth_text(ui.trade_open && sim.near_trader(pid)));
    s.append(",\"weapon_damage\":");
    s.append(int_text(d.weapon_damage as i64).as_str());
    s.append("}");
    w.str_u16(s.as_str());
    w.into_vec()
}

} // verus!
